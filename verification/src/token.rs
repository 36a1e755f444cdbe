//! Tokens of wikitext and the tokenizer that produces them.

use std::ops::Range;
use vstd::prelude::*;
use vstd::string::*;

verus! {

broadcast use vstd::string::group_string_axioms;

/// The lexical classes that wikitext is cut into.
#[derive(Clone, Copy, Debug, PartialEq, Eq, Structural)]
pub enum Token {
    /// Marks the start of the input; carries no text.
    InputStart,
    /// Marks the end of the input; carries no text.
    InputEnd,
    /// A single newline.
    LineBreak,
    /// Two or more consecutive newlines.
    ParagraphBreak,
    /// A run of spaces and tabs.
    Whitespace,
    /// The character `=`.
    Equals,
    /// The character `[`.
    LeftBracket,
    /// The character `]`.
    RightBracket,
    /// A run of word characters.
    Identifier,
    /// Any other single character.
    Other,
}

/// A token together with the text it covers and its position in the input.
/// Positions are counted in characters.
#[derive(Debug)]
pub struct ExtractedToken {
    pub token: Token,
    pub slice: String,
    pub span: Range<usize>,
}

/// The full input text together with its tokens.
pub struct Tokenization {
    pub full_text: String,
    pub tokens: Vec<ExtractedToken>,
}

impl Tokenization {
    pub fn new(full_text: String, tokens: Vec<ExtractedToken>) -> (r: Tokenization)
        ensures
            r.full_text == full_text,
            r.tokens == tokens,
    {
        Tokenization { full_text, tokens }
    }

    pub fn tokens(&self) -> (r: &[ExtractedToken])
        ensures
            r@ == self.tokens@,
    {
        self.tokens.as_slice()
    }

    pub fn full_text(&self) -> (r: &str)
        ensures
            r@ == self.full_text@,
    {
        self.full_text.as_str()
    }
}

/// Character groups: a newline, a space or tab, a word character, or a character
/// that forms a token on its own.
pub open spec fn char_group(c: char) -> int {
    if c == '\n' {
        0
    } else if c == ' ' || c == '\t' {
        1
    } else if ('a' <= c && c <= 'z') || ('A' <= c && c <= 'Z') || ('0' <= c && c <= '9') || c
        == '_' || (c as u32) >= 128 {
        2
    } else {
        3
    }
}

/// The token kind of a non-empty slice whose characters all share one group.
pub open spec fn kind_of(slice: Seq<char>) -> Token {
    let c = slice[0];
    if char_group(c) == 0 {
        if slice.len() == 1 {
            Token::LineBreak
        } else {
            Token::ParagraphBreak
        }
    } else if char_group(c) == 1 {
        Token::Whitespace
    } else if char_group(c) == 2 {
        Token::Identifier
    } else if c == '=' {
        Token::Equals
    } else if c == '[' {
        Token::LeftBracket
    } else if c == ']' {
        Token::RightBracket
    } else {
        Token::Other
    }
}

/// A token of the text between the two markers: a non-empty slice of one group,
/// of length one when its group does not form runs, and of the kind its text has.
pub open spec fn body_token_ok(t: ExtractedToken) -> bool {
    let s = t.slice@;
    &&& s.len() > 0
    &&& forall|k: int| 0 <= k < s.len() ==> char_group(#[trigger] s[k]) == char_group(s[0])
    &&& char_group(s[0]) == 3 ==> s.len() == 1
    &&& t.token == kind_of(s)
    &&& t.span.end - t.span.start == s.len()
}

/// Two neighbouring tokens of the body do not belong to one run.
pub open spec fn runs_maximal(a: ExtractedToken, b: ExtractedToken) -> bool {
    char_group(a.slice@[0]) == 3 || char_group(a.slice@[0]) != char_group(b.slice@[0])
}

/// The concatenation of the texts of a sequence of tokens.
pub open spec fn joined_text(tokens: Seq<ExtractedToken>) -> Seq<char>
    decreases tokens.len(),
{
    if tokens.len() == 0 {
        Seq::empty()
    } else {
        joined_text(tokens.drop_last()) + tokens.last().slice@
    }
}

/// The tokens between the markers: each well formed, each starting where the one
/// before it ends, runs taken whole, the first starting at `0`.
pub open spec fn body_ok(body: Seq<ExtractedToken>) -> bool {
    &&& forall|i: int| 0 <= i < body.len() ==> body_token_ok(#[trigger] body[i])
    &&& forall|i: int, j: int|
        #![trigger body[i], body[j]]
        0 <= i && j == i + 1 && j < body.len() ==> body[j].span.start == body[i].span.end
            && runs_maximal(body[i], body[j])
    &&& body.len() > 0 ==> body[0].span.start == 0
}

/// What `tokenize` produces for `text`: `InputStart`, the body tokens that cover
/// the text exactly, then `InputEnd`.
pub open spec fn is_tokenization_of(text: Seq<char>, tokens: Seq<ExtractedToken>) -> bool {
    &&& tokens.len() >= 2
    &&& tokens[0].token == Token::InputStart
    &&& tokens[0].slice@.len() == 0
    &&& tokens[0].span.start == 0 && tokens[0].span.end == 0
    &&& tokens.last().token == Token::InputEnd
    &&& tokens.last().slice@.len() == 0
    &&& tokens.last().span.start == text.len() && tokens.last().span.end == text.len()
    &&& body_ok(tokens.subrange(1, tokens.len() - 1))
    &&& joined_text(tokens.subrange(1, tokens.len() - 1)) == text
}

fn group_of(c: char) -> (g: u8)
    ensures
        g == char_group(c),
{
    if c == '\n' {
        0
    } else if c == ' ' || c == '\t' {
        1
    } else if ('a' <= c && c <= 'z') || ('A' <= c && c <= 'Z') || ('0' <= c && c <= '9') || c
        == '_' || (c as u32) >= 128 {
        2
    } else {
        3
    }
}

fn kind_for(first: char, len: usize) -> (t: Token)
    requires
        len >= 1,
    ensures
        forall|s: Seq<char>| s.len() == len && s[0] == first ==> t == kind_of(s),
{
    let g = group_of(first);
    if g == 0 {
        if len == 1 {
            Token::LineBreak
        } else {
            Token::ParagraphBreak
        }
    } else if g == 1 {
        Token::Whitespace
    } else if g == 2 {
        Token::Identifier
    } else if first == '=' {
        Token::Equals
    } else if first == '[' {
        Token::LeftBracket
    } else if first == ']' {
        Token::RightBracket
    } else {
        Token::Other
    }
}

/// A start marker: `InputStart` with no text, at position zero.
pub open spec fn is_start_marker(t: ExtractedToken) -> bool {
    t.token == Token::InputStart && t.slice@.len() == 0 && t.span.start == 0 && t.span.end == 0
}

/// An end marker: `InputEnd` with no text, at position `at`.
pub open spec fn is_end_marker(t: ExtractedToken, at: usize) -> bool {
    t.token == Token::InputEnd && t.slice@.len() == 0 && t.span.start == at && t.span.end == at
}

/// `out` is `tokens` with a start marker put in front, unless `tokens` is empty
/// or already starts with `InputStart`.
pub open spec fn with_start_marker(tokens: Seq<ExtractedToken>, out: Seq<ExtractedToken>) -> bool {
    if tokens.len() > 0 && tokens[0].token != Token::InputStart {
        &&& out.len() == tokens.len() + 1
        &&& is_start_marker(out[0])
        &&& out.subrange(1, out.len() as int) == tokens
    } else {
        out == tokens
    }
}

/// `out` is `tokens` with an end marker at the end of the last token put after
/// it, unless `tokens` is empty or already ends with `InputEnd`.
pub open spec fn with_end_marker(tokens: Seq<ExtractedToken>, out: Seq<ExtractedToken>) -> bool {
    if tokens.len() > 0 && tokens.last().token != Token::InputEnd {
        &&& out.len() == tokens.len() + 1
        &&& is_end_marker(out.last(), tokens.last().span.end)
        &&& out.drop_last() == tokens
    } else {
        out == tokens
    }
}

/// `framed` is `tokens` with the markers that a parse needs at both ends added
/// where they are missing.
pub open spec fn is_framing_of(tokens: Seq<ExtractedToken>, framed: Seq<ExtractedToken>) -> bool {
    exists|middle: Seq<ExtractedToken>|
        with_start_marker(tokens, middle) && #[trigger] with_end_marker(middle, framed)
}

/// Puts the markers that a parse needs at both ends of `tokens` where they are
/// missing.
pub fn frame_tokens(tokens: Vec<ExtractedToken>) -> (r: Vec<ExtractedToken>)
    ensures
        is_framing_of(tokens@, r@),
{
    let mut tokens = tokens;
    let ghost given = tokens@;
    if tokens.len() > 0 && tokens[0].token != Token::InputStart {
        tokens.insert(0, ExtractedToken { token: Token::InputStart, slice: String::new(), span: 0..0 });
        assert(tokens@.subrange(1, tokens@.len() as int) =~= given);
    }
    let ghost middle = tokens@;
    let len = tokens.len();
    if len > 0 && tokens[len - 1].token != Token::InputEnd {
        let end = tokens[len - 1].span.end;
        tokens.push(ExtractedToken { token: Token::InputEnd, slice: String::new(), span: end..end });
        assert(tokens@.drop_last() =~= middle);
    }
    assert(with_start_marker(given, middle));
    assert(with_end_marker(middle, tokens@));
    tokens
}

/// The text of `tokens` one after the other.
pub fn join_slices(tokens: &Vec<ExtractedToken>) -> (r: String)
    ensures
        r@ == joined_text(tokens@),
{
    let mut out = String::new();
    let mut i: usize = 0;
    proof {
        assert(tokens@.take(0) =~= Seq::<ExtractedToken>::empty());
    }
    while i < tokens.len()
        invariant
            i <= tokens.len(),
            out@ == joined_text(tokens@.take(i as int)),
        decreases tokens.len() - i,
    {
        out.append(tokens[i].slice.as_str());
        proof {
            assert(tokens@.take(i + 1).drop_last() =~= tokens@.take(i as int));
        }
        i += 1;
    }
    assert(tokens@.take(tokens.len() as int) =~= tokens@);
    out
}

proof fn lemma_joined_push(body: Seq<ExtractedToken>, t: ExtractedToken)
    ensures
        joined_text(body.push(t)) == joined_text(body) + t.slice@,
{
    assert(body.push(t).drop_last() =~= body);
}

/// The tokens after the start marker.
spec fn after_start(tokens: Seq<ExtractedToken>) -> Seq<ExtractedToken> {
    tokens.subrange(1, tokens.len() as int)
}

/// The state of the tokenizer after it has cut the first `i` characters of `text`.
#[verifier::opaque]
spec fn cut_so_far(text: Seq<char>, tokens: Seq<ExtractedToken>, i: int) -> bool {
    &&& 0 <= i <= text.len()
    &&& tokens.len() >= 1
    &&& tokens[0].token == Token::InputStart
    &&& tokens[0].slice@.len() == 0
    &&& tokens[0].span.start == 0 && tokens[0].span.end == 0
    &&& body_ok(after_start(tokens))
    &&& joined_text(after_start(tokens)) == text.subrange(0, i)
    &&& tokens.len() > 1 ==> tokens.last().span.end == i
    &&& tokens.len() == 1 ==> i == 0
    &&& tokens.len() > 1 && i < text.len() ==> (char_group(tokens.last().slice@[0]) == 3
        || char_group(tokens.last().slice@[0]) != char_group(text[i]))
}

proof fn lemma_cut_extend(text: Seq<char>, tokens: Seq<ExtractedToken>, i: int, j: int, t: ExtractedToken)
    requires
        cut_so_far(text, tokens, i),
        i < j <= text.len(),
        t.slice@ == text.subrange(i, j),
        t.span.start == i,
        t.span.end == j,
        body_token_ok(t),
        j < text.len() ==> (char_group(text[i]) == 3 || char_group(text[i]) != char_group(text[j])),
    ensures
        cut_so_far(text, tokens.push(t), j),
{
    reveal(cut_so_far);
    let body0 = after_start(tokens);
    let body1 = after_start(tokens.push(t));
    assert(body1 =~= body0.push(t));
    lemma_joined_push(body0, t);
    assert(text.subrange(0, i) + text.subrange(i, j) =~= text.subrange(0, j));
    assert(t.slice@[0] == text[i]);
    assert forall|a: int, b: int|
        #![trigger body1[a], body1[b]]
        0 <= a && b == a + 1 && b < body1.len() implies body1[b].span.start == body1[a].span.end
            && runs_maximal(body1[a], body1[b]) by {
        if b == body1.len() - 1 {
            assert(body1[a] == tokens.last());
        } else {
            assert(body1[b] == body0[b]);
            assert(body1[a] == body0[a]);
        }
    }
    assert forall|k: int| 0 <= k < body1.len() implies body_token_ok(#[trigger] body1[k]) by {
        if k < body1.len() - 1 {
            assert(body1[k] == body0[k]);
        }
    }
}

/// Cuts `text` into tokens: `InputStart`, then newline runs (a single newline is a
/// `LineBreak`, more are a `ParagraphBreak`), runs of spaces, runs of word
/// characters and single other characters, then `InputEnd`.
pub fn tokenize(text: &str) -> (r: Tokenization)
    ensures
        r.full_text@ == text@,
        is_tokenization_of(text@, r.tokens@),
{
    let n = text.unicode_len();
    let mut tokens: Vec<ExtractedToken> = Vec::new();
    tokens.push(ExtractedToken { token: Token::InputStart, slice: String::new(), span: 0..0 });
    let mut i: usize = 0;
    proof {
        reveal(cut_so_far);
        assert(after_start(tokens@) =~= Seq::<ExtractedToken>::empty());
        assert(text@.subrange(0, 0) =~= Seq::<char>::empty());
    }
    while i < n
        invariant
            n == text@.len(),
            cut_so_far(text@, tokens@, i as int),
        decreases n - i,
    {
        let c = text.get_char(i);
        let g = group_of(c);
        proof {
            reveal(cut_so_far);
        }
        let mut j: usize = i + 1;
        if g != 3 {
            while j < n && group_of(text.get_char(j)) == g
                invariant
                    n == text@.len(),
                    i < j <= n,
                    g == char_group(c),
                    c == text@[i as int],
                    forall|k: int| i <= k < j ==> char_group(#[trigger] text@[k]) == g,
                decreases n - j,
            {
                j += 1;
            }
        }
        let piece = text.substring_char(i, j);
        let slice = piece.to_owned();
        let kind = kind_for(c, j - i);
        let t = ExtractedToken { token: kind, slice, span: i..j };
        proof {
            assert(t.slice@ == text@.subrange(i as int, j as int));
            assert forall|k: int| 0 <= k < t.slice@.len() implies char_group(#[trigger] t.slice@[k])
                == char_group(t.slice@[0]) by {
                assert(t.slice@[k] == text@[i + k]);
            }
            assert(body_token_ok(t));
            lemma_cut_extend(text@, tokens@, i as int, j as int, t);
        }
        tokens.push(t);
        i = j;
    }
    let ghost old_tokens = tokens@;
    proof {
        reveal(cut_so_far);
    }
    tokens.push(ExtractedToken { token: Token::InputEnd, slice: String::new(), span: n..n });
    proof {
        assert(tokens@.subrange(1, tokens@.len() - 1) =~= after_start(old_tokens));
        assert(text@.subrange(0, n as int) =~= text@);
    }
    Tokenization { full_text: text.to_owned(), tokens }
}

} // verus!
