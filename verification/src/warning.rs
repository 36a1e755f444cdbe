//! Rules, parse warnings, and what a successful parse yields.

use std::ops::Range;
use vstd::prelude::*;

use crate::token::{ExtractedToken, Token};
use crate::tree::{Elements, ElementsView};

verus! {

/// A parse rule, known by its name.
#[derive(Clone, Copy, Debug)]
pub struct Rule {
    pub name: &'static str,
}

impl Rule {
    pub fn new(name: &'static str) -> (r: Rule)
        ensures
            r.name == name,
    {
        Rule { name }
    }

    /// The rule that parses a whole page.
    pub fn page() -> (r: Rule)
        ensures
            r.name@ == "page"@,
    {
        Rule { name: "page" }
    }
}

/// Why a rule could not go on.
#[derive(Clone, Copy, Debug, PartialEq, Eq, Structural)]
pub enum ParseWarningKind {
    RuleFailed,
    NotImplemented,
    EndOfInput,
    NoRulesMatch,
    RecursionDepthExceeded,
    NotSupportedMode,
    BlockMissingName,
    BlockMissingCloseBrackets,
    BlockMalformedArguments,
}

/// A warning: what went wrong, in which rule, at which token.
#[derive(Debug)]
pub struct ParseWarning {
    pub token: Token,
    pub rule: &'static str,
    pub span: Range<usize>,
    pub kind: ParseWarningKind,
}

impl ParseWarning {
    /// A warning of `kind` raised by `rule` at `current`.
    pub fn new(kind: ParseWarningKind, rule: Rule, current: &ExtractedToken) -> (r: ParseWarning)
        ensures
            r.token == current.token,
            r.rule == rule.name,
            r.span == current.span,
            r.kind == kind,
    {
        ParseWarning {
            token: current.token,
            rule: rule.name,
            span: current.span.start..current.span.end,
            kind,
        }
    }

    /// An equal copy.
    pub fn duplicate(&self) -> (r: ParseWarning)
        ensures
            r == *self,
    {
        ParseWarning {
            token: self.token,
            rule: self.rule,
            span: self.span.start..self.span.end,
            kind: self.kind,
        }
    }
}

impl Clone for ParseWarning {
    fn clone(&self) -> (r: ParseWarning)
        ensures
            r == *self,
    {
        self.duplicate()
    }
}

/// A condition on the tokens at the cursor, checked before a rule runs.
#[derive(Clone, Copy, Debug, PartialEq, Eq, Structural)]
pub enum ParseCondition {
    /// The current token is this one.
    CurrentToken(Token),
    /// The current token is the first, and the next one the second.
    TokenPair(Token, Token),
}

/// What a rule that succeeded produced.
#[derive(Debug)]
pub struct ParseSuccess {
    pub item: Elements,
    pub warnings: Vec<ParseWarning>,
    pub paragraph_safe: bool,
}

pub struct ParseSuccessView {
    pub item: ElementsView,
    pub warnings: Seq<ParseWarning>,
    pub paragraph_safe: bool,
}

impl View for ParseSuccess {
    type V = ParseSuccessView;

    open spec fn view(&self) -> ParseSuccessView {
        ParseSuccessView {
            item: self.item@,
            warnings: self.warnings@,
            paragraph_safe: self.paragraph_safe,
        }
    }
}

impl ParseSuccess {
    /// A copy with an equal view.
    pub fn duplicate(&self) -> (r: ParseSuccess)
        ensures
            r@ == self@,
    {
        let mut warnings: Vec<ParseWarning> = Vec::new();
        let mut i: usize = 0;
        while i < self.warnings.len()
            invariant
                i <= self.warnings.len(),
                warnings@ == self.warnings@.take(i as int),
            decreases self.warnings.len() - i,
        {
            warnings.push(self.warnings[i].duplicate());
            proof {
                assert(self.warnings@.take(i + 1) =~= self.warnings@.take(i as int).push(
                    self.warnings@[i as int],
                ));
            }
            i += 1;
        }
        assert(self.warnings@.take(self.warnings.len() as int) =~= self.warnings@);
        ParseSuccess {
            item: self.item.duplicate(),
            warnings,
            paragraph_safe: self.paragraph_safe,
        }
    }
}

impl Clone for ParseSuccess {
    fn clone(&self) -> (r: ParseSuccess)
        ensures
            r@ == self@,
    {
        self.duplicate()
    }
}

} // verus!
