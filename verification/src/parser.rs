//! The parser's cursor over the tokens, its flags, and the page-wide collections
//! that rules fill while they run.

use std::collections::HashMap;
use std::rc::Rc;
use vstd::cell::invcell::InvCell;
use vstd::predicate::Predicate;
use vstd::prelude::*;
use vstd::slice::slice_subrange;

use crate::data::{PageCallbacks, PageInfo, WikitextSettings};
use crate::token::{
    ExtractedToken, Token, Tokenization, frame_tokens, is_framing_of, join_slices, joined_text,
};
use crate::tree::{
    AcceptsPartial, AttributeMap, Container, ContainerType, ContainerView, Element, ElementView,
    HeadingLevel, PageRef, elements_view, heading_number, render_text, text_of_all,
};
use crate::warning::{ParseCondition, ParseSuccess, ParseWarning, ParseWarningKind, Rule};

verus! {

/// How deeply rules may nest before parsing gives up.
pub const MAX_RECURSION_DEPTH: usize = 100;

/// The constraint on what the shared collections hold: anything. Their contents
/// are whatever the parsers sharing them put there.
pub struct AnyContents {}

impl<T> Predicate<T> for AnyContents {
    open spec fn predicate(&self, v: T) -> bool {
        true
    }
}

/// The state of a parse: where it stands in the tokens, which rule runs, how
/// deep rules are nested, a few flags, and what the page collects on the way
/// (table of contents, footnotes, internal links, and cached results of rules).
/// The collections sit in cells that a parser shares with every copy made of it,
/// so what one copy adds, all of them see.
pub struct Parser<'r, C: PageCallbacks> {
    page_info: &'r PageInfo,
    page_callbacks: Rc<C>,
    settings: &'r WikitextSettings,
    tokens: &'r [ExtractedToken],
    position: usize,
    full_text: &'r str,
    rule: Rule,
    depth: usize,
    table_of_contents: Rc<InvCell<Vec<(usize, String)>, AnyContents>>,
    footnotes: Rc<InvCell<Vec<Vec<Element>>, AnyContents>>,
    internal_links: Rc<InvCell<Vec<PageRef>, AnyContents>>,
    ast_cache: Rc<InvCell<HashMap<usize, (usize, ParseSuccess)>, AnyContents>>,
    accepts_partial: AcceptsPartial,
    in_footnote: bool,
    has_footnote_block: bool,
    has_toc_block: bool,
    start_of_line: bool,
}

/// What parsing a list of tokens yields: the result of the page rule, and the
/// table of contents, footnotes, internal links and block flags gathered on the way.
pub struct UnstructuredParseResult {
    pub result: Result<ParseSuccess, ParseWarning>,
    pub table_of_contents_depths: Vec<(usize, String)>,
    pub footnotes: Vec<Vec<Element>>,
    pub has_footnote_block: bool,
    pub has_toc_block: bool,
    pub internal_links: Vec<PageRef>,
}

/// A paragraph that holds `text` as its only element and has no attributes.
pub open spec fn is_text_paragraph(e: ElementView, text: Seq<char>) -> bool {
    e == ElementView::Container(
        ContainerView {
            ctype: ContainerType::Paragraph,
            elements: seq![ElementView::Text(text)],
            attributes: Seq::empty(),
        },
    )
}

/// The state `v` after a nested parse succeeded with `out`: its block flags
/// merged with those of the nested parse.
pub open spec fn merged_with<C>(v: ParserView<C>, out: UnstructuredParseResult) -> ParserView<C> {
    ParserView {
        has_footnote_block: v.has_footnote_block || out.has_footnote_block,
        has_toc_block: v.has_toc_block || out.has_toc_block,
        ..v
    }
}

/// The abstract state of a parser. `position` indexes `tokens`: the token there
/// is the current one, those after it are the remaining ones. The four cells are
/// the collections the parser shares with its copies; two parsers that hold equal
/// cells share them.
pub struct ParserView<C> {
    pub page_info: PageInfo,
    pub page_callbacks: C,
    pub settings: WikitextSettings,
    pub tokens: Seq<ExtractedToken>,
    pub position: int,
    pub full_text: Seq<char>,
    pub rule: Rule,
    pub depth: int,
    pub table_of_contents: InvCell<Vec<(usize, String)>, AnyContents>,
    pub footnotes: InvCell<Vec<Vec<Element>>, AnyContents>,
    pub internal_links: InvCell<Vec<PageRef>, AnyContents>,
    pub ast_cache: InvCell<HashMap<usize, (usize, ParseSuccess)>, AnyContents>,
    pub accepts_partial: AcceptsPartial,
    pub in_footnote: bool,
    pub has_footnote_block: bool,
    pub has_toc_block: bool,
    pub start_of_line: bool,
}

impl<'r, C: PageCallbacks> View for Parser<'r, C> {
    type V = ParserView<C>;

    closed spec fn view(&self) -> ParserView<C> {
        ParserView {
            page_info: *self.page_info,
            page_callbacks: *self.page_callbacks,
            settings: *self.settings,
            tokens: self.tokens@,
            position: self.position as int,
            full_text: self.full_text@,
            rule: self.rule,
            depth: self.depth as int,
            table_of_contents: *self.table_of_contents,
            footnotes: *self.footnotes,
            internal_links: *self.internal_links,
            ast_cache: *self.ast_cache,
            accepts_partial: self.accepts_partial,
            in_footnote: self.in_footnote,
            has_footnote_block: self.has_footnote_block,
            has_toc_block: self.has_toc_block,
            start_of_line: self.start_of_line,
        }
    }
}

/// The current token.
pub open spec fn current_of<C>(v: ParserView<C>) -> ExtractedToken {
    v.tokens[v.position]
}

/// The tokens after the current one.
pub open spec fn remaining_of<C>(v: ParserView<C>) -> Seq<ExtractedToken> {
    v.tokens.subrange(v.position + 1, v.tokens.len() as int)
}

/// Whether a token after the current one exists.
pub open spec fn has_next<C>(v: ParserView<C>) -> bool {
    v.position + 1 < v.tokens.len()
}

/// The warning of `kind` that the parser raises where it stands.
pub open spec fn warning_at<C>(v: ParserView<C>, kind: ParseWarningKind) -> ParseWarning {
    ParseWarning {
        token: current_of(v).token,
        rule: v.rule.name,
        span: current_of(v).span,
        kind: kind,
    }
}

/// Whether the token after `t` stands at the start of a line.
pub open spec fn starts_line(t: Token) -> bool {
    t == Token::InputStart || t == Token::LineBreak || t == Token::ParagraphBreak
}

/// The state after one step: the start-of-line flag records whether the token
/// left behind ends a line, and the cursor moves on unless it is at the last token.
pub open spec fn stepped<C>(v: ParserView<C>) -> ParserView<C> {
    let flagged = ParserView { start_of_line: starts_line(current_of(v).token), ..v };
    if has_next(v) {
        ParserView { position: v.position + 1, ..flagged }
    } else {
        flagged
    }
}

/// What one step returns: the new current token, or an end-of-input warning.
pub open spec fn step_outcome<C>(v: ParserView<C>) -> Result<ExtractedToken, ParseWarning> {
    if has_next(v) {
        Ok(v.tokens[v.position + 1])
    } else {
        Err(warning_at(v, ParseWarningKind::EndOfInput))
    }
}

/// The state after `n` steps; steps stop at the first one that fails.
pub open spec fn stepped_n<C>(v: ParserView<C>, n: nat) -> ParserView<C>
    decreases n,
{
    if n == 0 {
        v
    } else if has_next(v) {
        stepped_n(stepped(v), (n - 1) as nat)
    } else {
        stepped(v)
    }
}

/// The token `offset + 1` places after the current one, if there is one.
pub open spec fn look_ahead_of<C>(v: ParserView<C>, offset: int) -> Option<ExtractedToken> {
    if 0 <= offset < remaining_count(v) {
        Some(v.tokens[v.position + 1 + offset])
    } else {
        None
    }
}

/// The kind of the token `offset + 1` places after the current one, if there is one.
pub open spec fn token_ahead<C>(v: ParserView<C>, offset: int) -> Option<Token> {
    match look_ahead_of(v, offset) {
        Some(t) => Some(t.token),
        None => None,
    }
}

/// The tokens that `get_optional_spaces_any` skips.
pub open spec fn is_space_any(t: Token) -> bool {
    t == Token::Whitespace || t == Token::LineBreak || t == Token::ParagraphBreak || t
        == Token::Equals
}

/// The state after skipping spaces: steps while the current token is one that
/// `is_space_any` names, stopping at the first other token or after the step
/// that finds no next token.
pub open spec fn skip_spaces<C>(v: ParserView<C>) -> ParserView<C>
    decreases v.tokens.len() - v.position,
{
    if 0 <= v.position < v.tokens.len() && is_space_any(current_of(v).token) {
        if has_next(v) {
            skip_spaces(stepped(v))
        } else {
            stepped(v)
        }
    } else {
        v
    }
}

/// Whether skipping spaces stops at a token that is not a space.
pub open spec fn skip_spaces_ok<C>(v: ParserView<C>) -> bool
    decreases v.tokens.len() - v.position,
{
    if 0 <= v.position < v.tokens.len() && is_space_any(current_of(v).token) {
        if has_next(v) {
            skip_spaces_ok(stepped(v))
        } else {
            false
        }
    } else {
        true
    }
}

/// Whether `condition` holds where the parser stands.
pub open spec fn condition_holds<C>(v: ParserView<C>, condition: ParseCondition) -> bool {
    match condition {
        ParseCondition::CurrentToken(t) => current_of(v).token == t,
        ParseCondition::TokenPair(first, second) => current_of(v).token == first && token_ahead(
            v,
            0,
        ) == Some(second),
    }
}

/// The state `v` with the flags that only ever get set taken over from `child`:
/// a footnote block or a table of contents that either has seen.
pub open spec fn with_flags_of<C>(v: ParserView<C>, child: ParserView<C>) -> ParserView<C> {
    ParserView {
        has_footnote_block: v.has_footnote_block || child.has_footnote_block,
        has_toc_block: v.has_toc_block || child.has_toc_block,
        ..v
    }
}

/// The state `v` after taking over where `child` stands: its flags as
/// `with_flags_of` merges them, its partial-element mode, footnote flag,
/// start-of-line flag, tokens and cursor. The collections stay as they are.
pub open spec fn updated_from<C>(v: ParserView<C>, child: ParserView<C>) -> ParserView<C> {
    ParserView {
        accepts_partial: child.accepts_partial,
        in_footnote: child.in_footnote,
        start_of_line: child.start_of_line,
        tokens: child.tokens,
        position: child.position,
        ..with_flags_of(v, child)
    }
}

/// `a` holds the same collections as `b`: the two share them.
pub open spec fn shares_collections<C>(a: ParserView<C>, b: ParserView<C>) -> bool {
    &&& a.table_of_contents == b.table_of_contents
    &&& a.footnotes == b.footnotes
    &&& a.internal_links == b.internal_links
    &&& a.ast_cache == b.ast_cache
}

/// The state one rule deeper.
pub open spec fn deeper<C>(v: ParserView<C>) -> ParserView<C> {
    ParserView { depth: v.depth + 1, ..v }
}

/// The state one rule shallower.
pub open spec fn shallower<C>(v: ParserView<C>) -> ParserView<C> {
    ParserView { depth: v.depth - 1, ..v }
}

/// A parser state whose cursor stands on a token of the list; every parser has
/// such a state.
pub open spec fn parser_ok<C>(v: ParserView<C>) -> bool {
    0 <= v.position < v.tokens.len() && 0 <= v.depth <= usize::MAX
}

/// The number of tokens after the current one.
pub open spec fn remaining_count<C>(v: ParserView<C>) -> int {
    v.tokens.len() - 1 - v.position
}

impl<'r, C: PageCallbacks> Parser<'r, C> {
    #[verifier::type_invariant]
    spec fn cursor_in_tokens(self) -> bool {
        self.position < self.tokens@.len()
    }
}

/// A copy stands where the original stands and holds handles to the same
/// collections, so the two share them.
impl<'r, C: PageCallbacks> Clone for Parser<'r, C> {
    fn clone(&self) -> (r: Self)
        ensures
            r == *self,
    {
        proof {
            use_type_invariant(self);
        }
        Parser {
            page_info: self.page_info,
            page_callbacks: share(&self.page_callbacks),
            settings: self.settings,
            tokens: self.tokens,
            position: self.position,
            full_text: self.full_text,
            rule: self.rule,
            depth: self.depth,
            table_of_contents: share(&self.table_of_contents),
            footnotes: share(&self.footnotes),
            internal_links: share(&self.internal_links),
            ast_cache: share(&self.ast_cache),
            accepts_partial: self.accepts_partial,
            in_footnote: self.in_footnote,
            has_footnote_block: self.has_footnote_block,
            has_toc_block: self.has_toc_block,
            start_of_line: self.start_of_line,
        }
    }
}

/// Calls `Rc::clone`: another handle to the same value. The contract claims that
/// the new handle points at the value the old one points at.
#[verifier::external_body]
fn share<T>(rc: &Rc<T>) -> (r: Rc<T>)
    ensures
        *r == **rc,
{
    Rc::clone(rc)
}

/// Calls `std::ptr::eq` on two slices: whether they start at the same address
/// and have the same length. The contract claims only that two slices it calls
/// equal hold the same tokens, as the same memory does.
#[verifier::external_body]
fn same_list(a: &[ExtractedToken], b: &[ExtractedToken]) -> (r: bool)
    ensures
        r ==> a@ == b@,
{
    std::ptr::eq(a, b)
}

/// The table-of-contents entry of a heading: its depth, counted from zero where
/// heading levels count from one, and the plain text of its name.
pub fn table_of_contents_entry(heading: HeadingLevel, name_elements: &[Element]) -> (r: (usize, String))
    ensures
        r.0 + 1 == heading_number(heading),
        r.1@ == text_of_all(elements_view(name_elements@)),
{
    let level = (heading.value() - 1) as usize;
    (level, render_text(name_elements))
}

impl<'r, C: PageCallbacks> Parser<'r, C> {
    /// A parser at the first token of `tokenization`, running the page rule, at
    /// depth zero, with empty collections, no flag set but the start of a line.
    pub fn new(
        tokenization: &'r Tokenization,
        page_info: &'r PageInfo,
        page_callbacks: Rc<C>,
        settings: &'r WikitextSettings,
    ) -> (r: Self)
        requires
            tokenization.tokens@.len() > 0,
        ensures
            r@.page_info == *page_info,
            r@.page_callbacks == *page_callbacks,
            r@.settings == *settings,
            r@.tokens == tokenization.tokens@,
            r@.position == 0,
            r@.full_text == tokenization.full_text@,
            r@.rule.name@ == "page"@,
            r@.depth == 0,
            r@.accepts_partial == AcceptsPartial::Nothing,
            !r@.in_footnote,
            !r@.has_footnote_block,
            !r@.has_toc_block,
            r@.start_of_line,
    {
        let full_text = tokenization.full_text();
        let tokens = tokenization.tokens();
        let r = Parser {
            page_info,
            page_callbacks,
            settings,
            tokens,
            position: 0,
            full_text,
            rule: Rule::page(),
            depth: 0,
            table_of_contents: Rc::new(InvCell::new(Vec::new(), Ghost(AnyContents {  }))),
            footnotes: Rc::new(InvCell::new(Vec::new(), Ghost(AnyContents {  }))),
            internal_links: Rc::new(InvCell::new(Vec::new(), Ghost(AnyContents {  }))),
            ast_cache: Rc::new(InvCell::new(HashMap::new(), Ghost(AnyContents {  }))),
            accepts_partial: AcceptsPartial::Nothing,
            in_footnote: false,
            has_footnote_block: false,
            has_toc_block: false,
            start_of_line: true,
        };
        r
    }

    pub fn page_info(&self) -> (r: &'r PageInfo)
        ensures
            *r == self@.page_info,
    {
        self.page_info
    }

    pub fn page_callbacks(&self) -> (r: Rc<C>)
        ensures
            *r == self@.page_callbacks,
    {
        share(&self.page_callbacks)
    }

    pub fn settings(&self) -> (r: &'r WikitextSettings)
        ensures
            *r == self@.settings,
    {
        self.settings
    }

    pub fn full_text(&self) -> (r: &'r str)
        ensures
            r@ == self@.full_text,
    {
        self.full_text
    }

    pub fn rule(&self) -> (r: Rule)
        ensures
            r == self@.rule,
    {
        self.rule
    }

    pub fn accepts_partial(&self) -> (r: AcceptsPartial)
        ensures
            r == self@.accepts_partial,
    {
        self.accepts_partial
    }

    pub fn in_footnote(&self) -> (r: bool)
        ensures
            r == self@.in_footnote,
    {
        self.in_footnote
    }

    pub fn has_footnote_block(&self) -> (r: bool)
        ensures
            r == self@.has_footnote_block,
    {
        self.has_footnote_block
    }

    pub fn has_toc_block(&self) -> (r: bool)
        ensures
            r == self@.has_toc_block,
    {
        self.has_toc_block
    }

    pub fn start_of_line(&self) -> (r: bool)
        ensures
            r == self@.start_of_line,
    {
        self.start_of_line
    }

    pub fn set_rule(&mut self, rule: Rule)
        ensures
            final(self)@ == (ParserView { rule: rule, ..old(self)@ }),
    {
        proof {
            use_type_invariant(&*self);
        }
        self.rule = rule;
    }

    pub fn set_accepts_partial(&mut self, value: AcceptsPartial)
        ensures
            final(self)@ == (ParserView { accepts_partial: value, ..old(self)@ }),
    {
        proof {
            use_type_invariant(&*self);
        }
        self.accepts_partial = value;
    }

    pub fn set_footnote_flag(&mut self, value: bool)
        ensures
            final(self)@ == (ParserView { in_footnote: value, ..old(self)@ }),
    {
        proof {
            use_type_invariant(&*self);
        }
        self.in_footnote = value;
    }

    pub fn set_footnote_block(&mut self)
        ensures
            final(self)@ == (ParserView { has_footnote_block: true, ..old(self)@ }),
    {
        proof {
            use_type_invariant(&*self);
        }
        self.has_footnote_block = true;
    }

    pub fn set_toc_block(&mut self)
        ensures
            final(self)@ == (ParserView { has_toc_block: true, ..old(self)@ }),
    {
        proof {
            use_type_invariant(&*self);
        }
        self.has_toc_block = true;
    }

    /// The token under the cursor.
    pub fn current(&self) -> (r: &'r ExtractedToken)
        ensures
            *r == current_of(self@),
            parser_ok(self@),
    {
        proof {
            use_type_invariant(self);
        }
        let tokens: &'r [ExtractedToken] = self.tokens;
        &tokens[self.position]
    }

    /// The tokens after the current one.
    pub fn remaining(&self) -> (r: &'r [ExtractedToken])
        ensures
            r@ == remaining_of(self@),
            parser_ok(self@),
    {
        proof {
            use_type_invariant(self);
        }
        let len = self.tokens.len();
        slice_subrange(self.tokens, self.position + 1, len)
    }

    /// A warning of `kind`, raised by the current rule at the current token.
    pub fn make_warn(&self, kind: ParseWarningKind) -> (r: ParseWarning)
        ensures
            r == warning_at(self@, kind),
    {
        ParseWarning::new(kind, self.rule, self.current())
    }

    /// Moves the cursor to the next token and returns it. The start-of-line flag
    /// is set from the token left behind, also when there is no next token; then
    /// the cursor stays and an end-of-input warning comes back.
    pub fn step(&mut self) -> (r: Result<&'r ExtractedToken, ParseWarning>)
        ensures
            final(self)@ == stepped(old(self)@),
            parser_ok(old(self)@),
            match r {
                Ok(t) => step_outcome(old(self)@) == Ok::<ExtractedToken, ParseWarning>(*t),
                Err(w) => step_outcome(old(self)@) == Err::<ExtractedToken, ParseWarning>(w),
            },
    {
        proof {
            use_type_invariant(&*self);
        }
        let current_token = self.tokens[self.position].token;
        self.start_of_line = match current_token {
            Token::InputStart | Token::LineBreak | Token::ParagraphBreak => true,
            _ => false,
        };
        if self.position + 1 < self.tokens.len() {
            self.position = self.position + 1;
            let tokens: &'r [ExtractedToken] = self.tokens;
            Ok(&tokens[self.position])
        } else {
            Err(self.make_warn(ParseWarningKind::EndOfInput))
        }
    }

    /// Moves the cursor `count` steps forward, stopping at the first step that
    /// finds no next token and returning its warning.
    pub fn step_n(&mut self, count: usize) -> (r: Result<(), ParseWarning>)
        ensures
            final(self)@ == stepped_n(old(self)@, count as nat),
            r is Ok <==> count <= remaining_count(old(self)@),
            r matches Err(w) ==> w == warning_at(final(self)@, ParseWarningKind::EndOfInput),
    {
        let mut i: usize = 0;
        while i < count
            invariant
                i <= count,
                stepped_n(old(self)@, count as nat) == stepped_n(self@, (count - i) as nat),
                remaining_count(self@) == remaining_count(old(self)@) - i,
                self@.tokens == old(self)@.tokens,
                self@.position == old(self)@.position + i,
            decreases count - i,
        {
            proof {
                use_type_invariant(&*self);
            }
            match self.step() {
                Ok(_) => {},
                Err(w) => {
                    return Err(w);
                },
            }
            i += 1;
        }
        proof {
            use_type_invariant(&*self);
        }
        Ok(())
    }

    /// The token `offset + 1` places after the current one; `0` gives the first
    /// of the remaining tokens.
    pub fn look_ahead(&self, offset: usize) -> (r: Option<&'r ExtractedToken>)
        ensures
            match r {
                Some(t) => look_ahead_of(self@, offset as int) == Some(*t),
                None => look_ahead_of(self@, offset as int) is None,
            },
    {
        proof {
            use_type_invariant(self);
        }
        let len = self.tokens.len();
        let available = len - 1 - self.position;
        if offset < available {
            let tokens: &'r [ExtractedToken] = self.tokens;
            Some(&tokens[self.position + 1 + offset])
        } else {
            None
        }
    }

    /// Like `look_ahead`, with an end-of-input warning where there is no token.
    pub fn look_ahead_warn(&self, offset: usize) -> (r: Result<&'r ExtractedToken, ParseWarning>)
        ensures
            match r {
                Ok(t) => look_ahead_of(self@, offset as int) == Some(*t),
                Err(w) => look_ahead_of(self@, offset as int) is None && w == warning_at(
                    self@,
                    ParseWarningKind::EndOfInput,
                ),
            },
    {
        match self.look_ahead(offset) {
            Some(t) => Ok(t),
            None => Err(self.make_warn(ParseWarningKind::EndOfInput)),
        }
    }

    /// The kinds of the current token and of the next one.
    pub fn next_two_tokens(&self) -> (r: (Token, Option<Token>))
        ensures
            r.0 == current_of(self@).token,
            r.1 == token_ahead(self@, 0),
    {
        let first = self.current().token;
        let second = match self.look_ahead(0) {
            Some(next) => Some(next.token),
            None => None,
        };
        (first, second)
    }

    /// The kinds of the current token and of the two after it.
    pub fn next_three_tokens(&self) -> (r: (Token, Option<Token>, Option<Token>))
        ensures
            r.0 == current_of(self@).token,
            r.1 == token_ahead(self@, 0),
            r.2 == token_ahead(self@, 1),
    {
        let first = self.current().token;
        let second = match self.look_ahead(0) {
            Some(next) => Some(next.token),
            None => None,
        };
        let third = match self.look_ahead(1) {
            Some(next) => Some(next.token),
            None => None,
        };
        (first, second, third)
    }

    /// Whether `old_remaining` is the very list that remains now: the same tokens
    /// in the same place in memory, not merely equal ones. A list handed out
    /// before a step that found a token is no longer it.
    pub fn same_pointer(&self, old_remaining: &[ExtractedToken]) -> (r: bool)
        ensures
            r ==> old_remaining@ == remaining_of(self@),
    {
        same_list(self.remaining(), old_remaining)
    }

    /// Takes the current token if it is `token`: returns its text and steps past it.
    /// Otherwise the parser stays and a warning of `kind` comes back.
    pub fn get_token(&mut self, token: Token, kind: ParseWarningKind) -> (r: Result<&'r str, ParseWarning>)
        ensures
            current_of(old(self)@).token == token ==> {
                &&& final(self)@ == stepped(old(self)@)
                &&& (r is Ok <==> has_next(old(self)@))
                &&& (r matches Ok(text) ==> text@ == current_of(old(self)@).slice@)
                &&& (r matches Err(w) ==> w == warning_at(old(self)@, ParseWarningKind::EndOfInput))
            },
            current_of(old(self)@).token != token ==> {
                &&& final(self)@ == old(self)@
                &&& r == Err::<&str, ParseWarning>(warning_at(old(self)@, kind))
            },
    {
        let current = self.current();
        if current.token == token {
            let text = current.slice.as_str();
            match self.step() {
                Ok(_) => Ok(text),
                Err(w) => Err(w),
            }
        } else {
            Err(self.make_warn(kind))
        }
    }

    /// Steps past the current token if it is `token`.
    pub fn get_optional_token(&mut self, token: Token) -> (r: Result<(), ParseWarning>)
        ensures
            current_of(old(self)@).token == token ==> {
                &&& final(self)@ == stepped(old(self)@)
                &&& (r is Ok <==> has_next(old(self)@))
                &&& (r matches Err(w) ==> w == warning_at(old(self)@, ParseWarningKind::EndOfInput))
            },
            current_of(old(self)@).token != token ==> final(self)@ == old(self)@ && r is Ok,
    {
        if self.current().token == token {
            match self.step() {
                Ok(_) => {},
                Err(w) => {
                    return Err(w);
                },
            }
        }
        Ok(())
    }

    /// Steps past the current token if it is a line break.
    pub fn get_optional_line_break(&mut self) -> (r: Result<(), ParseWarning>)
        ensures
            current_of(old(self)@).token == Token::LineBreak ==> {
                &&& final(self)@ == stepped(old(self)@)
                &&& (r is Ok <==> has_next(old(self)@))
                &&& (r matches Err(w) ==> w == warning_at(old(self)@, ParseWarningKind::EndOfInput))
            },
            current_of(old(self)@).token != Token::LineBreak ==> final(self)@ == old(self)@ && r is Ok,
    {
        self.get_optional_token(Token::LineBreak)
    }

    /// Steps past the current token if it is whitespace.
    pub fn get_optional_space(&mut self) -> (r: Result<(), ParseWarning>)
        ensures
            current_of(old(self)@).token == Token::Whitespace ==> {
                &&& final(self)@ == stepped(old(self)@)
                &&& (r is Ok <==> has_next(old(self)@))
                &&& (r matches Err(w) ==> w == warning_at(old(self)@, ParseWarningKind::EndOfInput))
            },
            current_of(old(self)@).token != Token::Whitespace ==> final(self)@ == old(self)@ && r is Ok,
    {
        self.get_optional_token(Token::Whitespace)
    }

    /// Steps past whitespace, line breaks, paragraph breaks and `=` signs.
    pub fn get_optional_spaces_any(&mut self) -> (r: Result<(), ParseWarning>)
        ensures
            final(self)@ == skip_spaces(old(self)@),
            r is Ok <==> skip_spaces_ok(old(self)@),
            r matches Err(w) ==> w == warning_at(final(self)@, ParseWarningKind::EndOfInput),
    {
        loop
            invariant
                skip_spaces(old(self)@) == skip_spaces(self@),
                skip_spaces_ok(old(self)@) == skip_spaces_ok(self@),
            decreases self@.tokens.len() - self@.position,
        {
            proof {
                use_type_invariant(&*self);
            }
            let current_token = self.current().token;
            let skip = match current_token {
                Token::Whitespace | Token::LineBreak | Token::ParagraphBreak | Token::Equals => true,
                _ => false,
            };
            if !skip {
                return Ok(());
            }
            match self.step() {
                Ok(_) => {},
                Err(w) => {
                    return Err(w);
                },
            }
        }
    }

    /// Whether `condition` holds where the parser stands; when it does and
    /// `match_token_count` asks for a count, it gets the number of tokens matched.
    pub fn evaluate(&self, condition: ParseCondition, match_token_count: &mut Option<&mut usize>) -> (r: bool)
        ensures
            r == condition_holds(self@, condition),
            condition matches ParseCondition::CurrentToken(a) ==> (r <==> self@.tokens[self@.position].token
                == a),
            condition matches ParseCondition::TokenPair(a, b) ==> (r <==> {
                &&& self@.tokens[self@.position].token == a
                &&& self@.position + 1 < self@.tokens.len()
                &&& self@.tokens[self@.position + 1].token == b
            }),
            (*old(match_token_count) is Some) == (*final(match_token_count) is Some),
            match (*old(match_token_count), *final(match_token_count)) {
                (Some(before), Some(after)) => *final(before) == *final(after) && *after == (if r {
                    1
                } else {
                    *before
                }),
                _ => true,
            },
    {
        let (matched, token_count): (bool, usize) = match condition {
            ParseCondition::CurrentToken(token) => (self.current().token == token, 1),
            ParseCondition::TokenPair(current, next) => {
                if self.current().token != current {
                    (false, 0)
                } else {
                    match self.look_ahead(0) {
                        Some(actual) => {
                            if actual.token != next {
                                (false, 0)
                            } else {
                                (true, 1)
                            }
                        },
                        None => (false, 0),
                    }
                }
            },
        };
        if matched {
            match match_token_count {
                Some(count) => **count = token_count,
                None => {},
            }
        }
        matched
    }

    /// Whether any of `conditions` holds; the count is set as `evaluate` sets it.
    pub fn evaluate_any(&self, conditions: &[ParseCondition], matched_token_count: &mut Option<&mut usize>) -> (r: bool)
        ensures
            r == exists|i: int| 0 <= i < conditions@.len() && condition_holds(self@, #[trigger] conditions@[i]),
            (*old(matched_token_count) is Some) == (*final(matched_token_count) is Some),
            match (*old(matched_token_count), *final(matched_token_count)) {
                (Some(before), Some(after)) => *final(before) == *final(after) && *after == (if r {
                    1
                } else {
                    *before
                }),
                _ => true,
            },
    {
        let mut i: usize = 0;
        while i < conditions.len()
            invariant
                i <= conditions@.len(),
                forall|j: int| 0 <= j < i ==> !condition_holds(self@, #[trigger] conditions@[j]),
                (*old(matched_token_count) is Some) == (*matched_token_count is Some),
                match (*old(matched_token_count), *matched_token_count) {
                    (Some(before), Some(now)) => *final(before) == *final(now) && *now == *before,
                    _ => true,
                },
            decreases conditions.len() - i,
        {
            if self.evaluate(conditions[i], matched_token_count) {
                return true;
            }
            i += 1;
        }
        false
    }

    /// Nests one rule deeper; fails when that goes past the greatest depth
    /// allowed, the depth counting the nesting all the same.
    pub fn depth_increment(&mut self) -> (r: Result<(), ParseWarning>)
        requires
            old(self)@.depth < usize::MAX,
        ensures
            final(self)@ == deeper(old(self)@),
            r is Ok <==> old(self)@.depth + 1 <= MAX_RECURSION_DEPTH,
            r matches Err(w) ==> w == warning_at(old(self)@, ParseWarningKind::RecursionDepthExceeded),
    {
        proof {
            use_type_invariant(&*self);
        }
        self.depth = self.depth + 1;
        if self.depth > MAX_RECURSION_DEPTH {
            return Err(self.make_warn(ParseWarningKind::RecursionDepthExceeded));
        }
        Ok(())
    }

    /// Leaves one level of nesting.
    pub fn depth_decrement(&mut self)
        requires
            old(self)@.depth > 0,
        ensures
            final(self)@ == shallower(old(self)@),
    {
        proof {
            use_type_invariant(&*self);
        }
        self.depth = self.depth - 1;
    }

    /// Succeeds when the settings allow page syntax.
    pub fn check_page_syntax(&self) -> (r: Result<(), ParseWarning>)
        ensures
            r is Ok <==> self@.settings.enable_page_syntax,
            r matches Err(w) ==> w == warning_at(self@, ParseWarningKind::NotSupportedMode),
    {
        if self.settings.enable_page_syntax {
            Ok(())
        } else {
            Err(self.make_warn(ParseWarningKind::NotSupportedMode))
        }
    }

    /// A copy of this parser running `rule`; it shares this parser's collections.
    pub fn clone_with_rule(&self, rule: Rule) -> (r: Self)
        ensures
            r@ == (ParserView { rule: rule, ..self@ }),
    {
        let mut clone = self.clone();
        clone.set_rule(rule);
        clone
    }

    /// Adds an entry to the shared table of contents: the heading's depth,
    /// counted from zero, and the plain text of its name.
    pub fn push_table_of_contents_entry(&mut self, heading: HeadingLevel, name_elements: &[Element])
        ensures
            final(self)@ == old(self)@,
    {
        let entry = table_of_contents_entry(heading, name_elements);
        let mut entries = self.table_of_contents.replace(Vec::new());
        entries.push(entry);
        self.table_of_contents.set(entries);
    }

    /// Hands out the shared table of contents and leaves it empty.
    pub fn remove_table_of_contents(&mut self) -> (r: Vec<(usize, String)>)
        ensures
            final(self)@ == old(self)@,
    {
        self.table_of_contents.replace(Vec::new())
    }

    /// Adds a footnote to the shared list.
    pub fn push_footnote(&mut self, contents: Vec<Element>)
        ensures
            final(self)@ == old(self)@,
    {
        let mut notes = self.footnotes.replace(Vec::new());
        notes.push(contents);
        self.footnotes.set(notes);
    }

    /// Hands out the shared footnotes and leaves none.
    pub fn remove_footnotes(&mut self) -> (r: Vec<Vec<Element>>)
        ensures
            final(self)@ == old(self)@,
    {
        self.footnotes.replace(Vec::new())
    }

    /// Adds an internal link to the shared list.
    pub fn push_internal_link(&mut self, page_ref: PageRef)
        ensures
            final(self)@ == old(self)@,
    {
        let mut links = self.internal_links.replace(Vec::new());
        links.push(page_ref);
        self.internal_links.set(links);
    }

    /// Hands out the shared internal links and leaves none.
    pub fn remove_internal_links(&mut self) -> (r: Vec<PageRef>)
        ensures
            final(self)@ == old(self)@,
    {
        self.internal_links.replace(Vec::new())
    }

    /// Moves the entries of `table_of_contents` and `footnotes` to the end of the
    /// shared ones, as an included page brings its own.
    pub fn append_toc_and_footnotes(
        &mut self,
        table_of_contents: &mut Vec<(usize, String)>,
        footnotes: &mut Vec<Vec<Element>>,
    )
        ensures
            final(self)@ == old(self)@,
            final(table_of_contents)@.len() == 0,
            final(footnotes)@.len() == 0,
    {
        let mut entries = self.table_of_contents.replace(Vec::new());
        entries.append(table_of_contents);
        self.table_of_contents.set(entries);
        let mut notes = self.footnotes.replace(Vec::new());
        notes.append(footnotes);
        self.footnotes.set(notes);
    }

    /// The cached result of the rule that ran at token `offset`, if any: the
    /// number of tokens it consumed and a copy of what it produced.
    pub fn cached_node(&self, offset: usize) -> (r: Option<(usize, ParseSuccess)>) {
        let cache = self.ast_cache.replace(HashMap::new());
        let r = match cache.get(&offset) {
            Some(entry) => Some((entry.0, entry.1.duplicate())),
            None => None,
        };
        self.ast_cache.set(cache);
        r
    }

    /// Caches in the shared cache what the rule that ran at token `offset` produced.
    pub fn put_cached_node(&mut self, offset: usize, consumed_tokens: usize, node: ParseSuccess)
        ensures
            final(self)@ == old(self)@,
    {
        let mut cache = self.ast_cache.replace(HashMap::new());
        cache.insert(offset, (consumed_tokens, node));
        self.ast_cache.set(cache);
    }

    /// Takes over the flags that only ever get set from `parser`.
    pub fn update_flags(&mut self, parser: &Parser<'r, C>)
        ensures
            final(self)@ == with_flags_of(old(self)@, parser@),
            final(self)@.has_footnote_block == (old(self)@.has_footnote_block
                || parser@.has_footnote_block),
            final(self)@.has_toc_block == (old(self)@.has_toc_block || parser@.has_toc_block),
            final(self)@.position == old(self)@.position,
            final(self)@.tokens == old(self)@.tokens,
            final(self)@.start_of_line == old(self)@.start_of_line,
            final(self)@.in_footnote == old(self)@.in_footnote,
            final(self)@.accepts_partial == old(self)@.accepts_partial,
    {
        proof {
            use_type_invariant(&*self);
        }
        self.has_footnote_block = self.has_footnote_block || parser.has_footnote_block;
        self.has_toc_block = self.has_toc_block || parser.has_toc_block;
    }

    /// Takes over where `parser`, a copy this parser handed to a rule, stands:
    /// its cursor and flags. The collections are shared and stay as they are.
    pub fn update(&mut self, parser: &Parser<'r, C>)
        ensures
            final(self)@ == updated_from(old(self)@, parser@),
            final(self)@.tokens == parser@.tokens,
            final(self)@.position == parser@.position,
            final(self)@.start_of_line == parser@.start_of_line,
            final(self)@.in_footnote == parser@.in_footnote,
            final(self)@.accepts_partial == parser@.accepts_partial,
            final(self)@.has_footnote_block == (old(self)@.has_footnote_block
                || parser@.has_footnote_block),
            final(self)@.has_toc_block == (old(self)@.has_toc_block || parser@.has_toc_block),
            final(self)@.rule == old(self)@.rule,
            final(self)@.depth == old(self)@.depth,
            shares_collections(final(self)@, old(self)@),
    {
        proof {
            use_type_invariant(&*self);
            use_type_invariant(parser);
        }
        self.update_flags(parser);
        self.accepts_partial = parser.accepts_partial;
        self.in_footnote = parser.in_footnote;
        self.start_of_line = parser.start_of_line;
        self.position = 0;
        self.tokens = parser.tokens;
        self.position = parser.position;
    }

    /// Runs `f` on a copy of this parser and tells whether it returned
    /// `Ok(true)`. Where the copy stands afterwards is dropped; what `f` added to
    /// the collections, which the copy shares with this parser, stays.
    pub fn evaluate_fn<F>(&self, f: F) -> (r: bool) where
        F: FnOnce(&mut Parser<'r, C>) -> Result<bool, ParseWarning>,

        requires
            forall|copy: &mut Parser<'r, C>| *copy == *self ==> #[trigger] f.requires((copy,)),
        ensures
            exists|copy: &mut Parser<'r, C>, result: Result<bool, ParseWarning>|
                {
                    &&& *copy == *self
                    &&& #[trigger] f.ensures((copy,), result)
                    &&& r == (result == Ok::<bool, ParseWarning>(true))
                },
    {
        let mut child = self.clone();
        match f(&mut child) {
            Ok(b) => b,
            Err(_) => false,
        }
    }

    /// Runs `f` on a copy of this parser. When it returns `Ok(true)`, this parser
    /// takes over where the copy stands and the token that was current before
    /// comes back; otherwise only the block flags are taken over.
    pub fn save_evaluate_fn<F>(&mut self, f: F) -> (r: Option<&'r ExtractedToken>) where
        F: FnOnce(&mut Parser<'r, C>) -> Result<bool, ParseWarning>,

        requires
            forall|copy: &mut Parser<'r, C>| *copy == *old(self) ==> #[trigger] f.requires((copy,)),
        ensures
            exists|copy: &mut Parser<'r, C>, result: Result<bool, ParseWarning>|
                {
                    &&& *copy == *old(self)
                    &&& #[trigger] f.ensures((copy,), result)
                    &&& result == Ok::<bool, ParseWarning>(true) ==> {
                        &&& r matches Some(t) && *t == current_of(old(self)@)
                        &&& final(self)@ == updated_from(old(self)@, final(copy)@)
                        &&& final(self)@.position == final(copy)@.position
                        &&& final(self)@.tokens == final(copy)@.tokens
                        &&& final(self)@.start_of_line == final(copy)@.start_of_line
                        &&& final(self)@.in_footnote == final(copy)@.in_footnote
                        &&& final(self)@.accepts_partial == final(copy)@.accepts_partial
                    }
                    &&& result != Ok::<bool, ParseWarning>(true) ==> {
                        &&& r is None
                        &&& final(self)@ == with_flags_of(old(self)@, final(copy)@)
                        &&& final(self)@.position == old(self)@.position
                        &&& final(self)@.start_of_line == old(self)@.start_of_line
                    }
                    &&& final(self)@.has_footnote_block == (old(self)@.has_footnote_block
                        || final(copy)@.has_footnote_block)
                    &&& final(self)@.has_toc_block == (old(self)@.has_toc_block
                        || final(copy)@.has_toc_block)
                },
    {
        let mut child = self.clone();
        let matched = match f(&mut child) {
            Ok(b) => b,
            Err(_) => false,
        };
        if matched {
            let last = self.current();
            self.update(&child);
            Some(last)
        } else {
            self.update_flags(&child);
            None
        }
    }

    /// Parses `tokens` on their own, with the markers a parse needs added where
    /// they are missing; `parse` is the parse of a whole token list. On success
    /// the table of contents, footnotes and internal links of the nested parse go
    /// to the end of the shared ones, its block flags are merged into this
    /// parser's, and its elements come back; on failure the text of the tokens
    /// comes back as one paragraph.
    pub fn sub_parse<F>(&mut self, tokens: Vec<ExtractedToken>, parse: F) -> (r: Vec<Element>) where
        F: FnOnce(&Tokenization) -> UnstructuredParseResult,

        requires
            forall|t: &Tokenization|
                t.full_text@ == old(self)@.full_text && is_framing_of(tokens@, t.tokens@)
                    ==> #[trigger] parse.requires((t,)),
        ensures
            exists|t: &Tokenization, out: UnstructuredParseResult|
                {
                    &&& t.full_text@ == old(self)@.full_text
                    &&& is_framing_of(tokens@, t.tokens@)
                    &&& #[trigger] parse.ensures((t,), out)
                    &&& match out.result {
                        Ok(success) => {
                            &&& r@ == success.item.items()
                            &&& final(self)@ == merged_with(old(self)@, out)
                            &&& final(self)@.has_footnote_block == (old(self)@.has_footnote_block
                                || out.has_footnote_block)
                            &&& final(self)@.has_toc_block == (old(self)@.has_toc_block
                                || out.has_toc_block)
                        },
                        Err(_) => {
                            &&& r@.len() == 1
                            &&& is_text_paragraph(r@[0]@, joined_text(tokens@))
                            &&& final(self)@ == old(self)@
                        },
                    }
                },
    {
        proof {
            use_type_invariant(&*self);
        }
        let raw_text = join_slices(&tokens);
        let framed = frame_tokens(tokens);
        let tokenization = Tokenization::new(self.full_text.to_owned(), framed);
        let out = parse(&tokenization);
        let ghost o = out;
        let UnstructuredParseResult {
            result,
            table_of_contents_depths,
            footnotes,
            has_footnote_block,
            has_toc_block,
            internal_links,
        } = out;
        match result {
            Ok(success) => {
                let mut depths = table_of_contents_depths;
                let mut notes = footnotes;
                let mut links = internal_links;
                let mut entries = self.table_of_contents.replace(Vec::new());
                entries.append(&mut depths);
                self.table_of_contents.set(entries);
                let mut all_notes = self.footnotes.replace(Vec::new());
                all_notes.append(&mut notes);
                self.footnotes.set(all_notes);
                let mut all_links = self.internal_links.replace(Vec::new());
                all_links.append(&mut links);
                self.internal_links.set(all_links);
                self.has_footnote_block = self.has_footnote_block || has_footnote_block;
                self.has_toc_block = self.has_toc_block || has_toc_block;
                proof {
                    assert(self@ == merged_with(old(self)@, o));
                }
                success.item.into_vec()
            },
            Err(_) => {
                let ghost raw = raw_text@;
                let text = Element::Text(raw_text);
                let mut elements: Vec<Element> = Vec::new();
                elements.push(text);
                assert(elements@[0]@ == ElementView::Text(raw));
                let element = Element::Container(
                    Container::new(ContainerType::Paragraph, elements, AttributeMap::new()),
                );
                let mut r: Vec<Element> = Vec::new();
                r.push(element);
                proof {
                    let v = r@[0]@;
                    assert(v->Container_0.elements =~= seq![ElementView::Text(raw)]);
                }
                r
            },
        }
    }
}

} // verus!