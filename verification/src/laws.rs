//! Properties that relate the parser's operations to one another.

use vstd::prelude::*;

use crate::parser::{
    ParserView, condition_holds, current_of, deeper, has_next, is_space_any, look_ahead_of,
    parser_ok, remaining_count, remaining_of, shallower, skip_spaces, skip_spaces_ok, step_outcome,
    stepped, stepped_n, updated_from, warning_at, with_flags_of, merged_with, shares_collections,
    UnstructuredParseResult,
};
use crate::token::{
    ExtractedToken, Token, is_end_marker, is_framing_of, is_start_marker, is_tokenization_of,
    joined_text, with_end_marker, with_start_marker,
};
use crate::warning::{ParseCondition, ParseWarningKind, Rule};

verus! {

/// A step from a token that has a successor moves the cursor one token on: the
/// new current token is the one `look_ahead(0)` showed, and the remaining tokens
/// lose their first.
pub proof fn law_step_moves_to_next_token<C>(v: ParserView<C>)
    requires
        parser_ok(v),
        has_next(v),
    ensures
        parser_ok(stepped(v)),
        stepped(v).position == v.position + 1,
        look_ahead_of(v, 0) == Some(current_of(stepped(v))),
        step_outcome(v) == Ok::<ExtractedToken, crate::warning::ParseWarning>(current_of(stepped(v))),
        remaining_of(stepped(v)) == remaining_of(v).drop_first(),
{
    assert(remaining_of(stepped(v)) =~= remaining_of(v).drop_first());
}

/// A step from the last token leaves the cursor where it is and reports the end
/// of the input at that token.
pub proof fn law_step_at_end_stays<C>(v: ParserView<C>)
    requires
        parser_ok(v),
        !has_next(v),
    ensures
        stepped(v).position == v.position,
        remaining_of(v).len() == 0,
        step_outcome(v) == Err::<ExtractedToken, crate::warning::ParseWarning>(
            warning_at(v, ParseWarningKind::EndOfInput),
        ),
{
}

/// `look_ahead(k)` finds the `k`-th of the remaining tokens, and nothing past them.
pub proof fn law_look_ahead_is_remaining<C>(v: ParserView<C>, k: int)
    requires
        parser_ok(v),
    ensures
        0 <= k < remaining_of(v).len() ==> look_ahead_of(v, k) == Some(remaining_of(v)[k]),
        k >= remaining_of(v).len() ==> look_ahead_of(v, k) is None,
{
}

/// Taking `a` steps and then `b` steps is taking `a + b` steps, when the first
/// `a` steps all find a token.
pub proof fn law_step_n_adds<C>(v: ParserView<C>, a: nat, b: nat)
    requires
        parser_ok(v),
        a <= remaining_count(v),
    ensures
        stepped_n(stepped_n(v, a), b) == stepped_n(v, a + b),
    decreases a,
{
    if a > 0 {
        law_step_n_adds(stepped(v), (a - 1) as nat, b);
        assert((a - 1) as nat + b == (a + b - 1) as nat);
    }
}

/// Going one rule deeper and coming back leaves the state as it was.
pub proof fn law_depth_round_trip<C>(v: ParserView<C>)
    ensures
        shallower(deeper(v)) == v,
        deeper(shallower(v)) == v,
{
}

/// Taking over another parser's flags never clears one, and leaves the cursor.
pub proof fn law_flags_only_grow<C>(v: ParserView<C>, child: ParserView<C>)
    ensures
        v.has_footnote_block ==> with_flags_of(v, child).has_footnote_block,
        v.has_toc_block ==> with_flags_of(v, child).has_toc_block,
        child.has_footnote_block ==> with_flags_of(v, child).has_footnote_block,
        child.has_toc_block ==> with_flags_of(v, child).has_toc_block,
        with_flags_of(v, child).position == v.position,
        with_flags_of(v, child).tokens == v.tokens,
{
}

/// Taking over from a copy that has not moved, whatever rule it was made for,
/// changes nothing; neither does taking over its flags.
pub proof fn law_update_from_unmoved_copy<C>(v: ParserView<C>, rule: Rule)
    ensures
        updated_from(v, v) == v,
        updated_from(v, ParserView { rule: rule, ..v }) == v,
        with_flags_of(v, v) == v,
{
}

/// Running a rule on a copy without keeping its progress moves nothing: the
/// tokens, cursor, rule, depth and per-position flags stay, whatever the copy did.
pub proof fn law_unsaved_evaluation_keeps_cursor<C>(v: ParserView<C>, child: ParserView<C>)
    ensures
        with_flags_of(v, child).tokens == v.tokens,
        with_flags_of(v, child).position == v.position,
        with_flags_of(v, child).rule == v.rule,
        with_flags_of(v, child).depth == v.depth,
        with_flags_of(v, child).start_of_line == v.start_of_line,
        with_flags_of(v, child).in_footnote == v.in_footnote,
        with_flags_of(v, child).accepts_partial == v.accepts_partial,
{
}

/// After a step that finds a token, the list that remained before is not the
/// one that remains: it is one token longer. So `same_pointer` answers no for a
/// list handed out before such a step.
pub proof fn law_same_pointer_tracks_steps<C>(v: ParserView<C>)
    requires
        parser_ok(v),
    ensures
        remaining_of(v).len() == remaining_count(v),
        has_next(v) ==> remaining_of(stepped(v)).len() + 1 == remaining_of(v).len(),
        has_next(v) ==> remaining_of(stepped(v)) != remaining_of(v),
{
}

/// Skipping spaces, when it succeeds, stops on a token that is not one of them
/// and passes nothing but them.
pub proof fn law_skip_spaces_stops_at_non_space<C>(v: ParserView<C>)
    requires
        parser_ok(v),
        skip_spaces_ok(v),
    ensures
        parser_ok(skip_spaces(v)),
        skip_spaces(v).tokens == v.tokens,
        !is_space_any(current_of(skip_spaces(v)).token),
        v.position <= skip_spaces(v).position,
        forall|j: int| v.position <= j < skip_spaces(v).position ==> is_space_any((#[trigger] v.tokens[j]).token),
    decreases v.tokens.len() - v.position,
{
    if is_space_any(current_of(v).token) {
        law_skip_spaces_stops_at_non_space(stepped(v));
    }
}

/// Any of a single condition holds exactly when that condition holds.
pub proof fn law_any_of_one<C>(v: ParserView<C>, c: ParseCondition)
    ensures
        (exists|i: int| 0 <= i < seq![c].len() && condition_holds(v, #[trigger] seq![c][i]))
            == condition_holds(v, c),
{
    if condition_holds(v, c) {
        assert(seq![c][0] == c);
    }
}

proof fn lemma_joined_prefix(m: ExtractedToken, s: Seq<ExtractedToken>)
    ensures
        joined_text(seq![m] + s) == m.slice@ + joined_text(s),
    decreases s.len(),
{
    if s.len() == 0 {
        assert(seq![m] + s =~= seq![m]);
        assert(seq![m].drop_last() =~= Seq::<ExtractedToken>::empty());
        assert(joined_text(seq![m]) == joined_text(Seq::<ExtractedToken>::empty()) + m.slice@);
        assert(Seq::<char>::empty() + m.slice@ =~= m.slice@ + Seq::<char>::empty());
    } else {
        let t = seq![m] + s;
        assert(t.drop_last() =~= seq![m] + s.drop_last());
        assert(t.last() == s.last());
        lemma_joined_prefix(m, s.drop_last());
        assert(joined_text(t) == joined_text(t.drop_last()) + t.last().slice@);
        assert((m.slice@ + joined_text(s.drop_last())) + s.last().slice@ =~= m.slice@ + (joined_text(
            s.drop_last(),
        ) + s.last().slice@));
    }
}

/// The texts of the tokens of a tokenization, markers included, put together
/// give back the input.
pub proof fn law_tokens_spell_the_input(text: Seq<char>, tokens: Seq<ExtractedToken>)
    requires
        is_tokenization_of(text, tokens),
    ensures
        joined_text(tokens) == text,
{
    let body = tokens.subrange(1, tokens.len() - 1);
    assert(tokens.drop_last() =~= seq![tokens[0]] + body);
    lemma_joined_prefix(tokens[0], body);
    assert(tokens[0].slice@ + joined_text(body) =~= joined_text(body));
    assert(joined_text(tokens) =~= joined_text(tokens.drop_last()) + tokens.last().slice@);
}

/// Framing a non-empty list puts `InputStart` first and `InputEnd` last, adds at
/// most two tokens, and changes none of the text.
pub proof fn law_framing_adds_markers_only(tokens: Seq<ExtractedToken>, framed: Seq<ExtractedToken>)
    requires
        is_framing_of(tokens, framed),
        tokens.len() > 0,
    ensures
        framed[0].token == Token::InputStart,
        framed.last().token == Token::InputEnd,
        tokens.len() <= framed.len() <= tokens.len() + 2,
        joined_text(framed) == joined_text(tokens),
{
    let middle = choose|middle: Seq<ExtractedToken>|
        with_start_marker(tokens, middle) && #[trigger] with_end_marker(middle, framed);
    if tokens[0].token != Token::InputStart {
        let rest = middle.subrange(1, middle.len() as int);
        assert(middle =~= seq![middle[0]] + rest);
        lemma_joined_prefix(middle[0], rest);
        assert(middle[0].slice@ + joined_text(rest) =~= joined_text(rest));
    }
    assert(joined_text(middle) == joined_text(tokens));
    if middle.last().token != Token::InputEnd {
        assert(framed[0] == framed.drop_last()[0]);
        assert(joined_text(framed) =~= joined_text(framed.drop_last()) + framed.last().slice@);
    }
}


proof fn lemma_stepped_n_forward<C>(v: ParserView<C>, n: nat)
    requires
        parser_ok(v),
    ensures
        parser_ok(stepped_n(v, n)),
        stepped_n(v, n).tokens == v.tokens,
        v.position <= stepped_n(v, n).position,
        shares_collections(stepped_n(v, n), v),
        stepped_n(v, n).depth == v.depth,
        stepped_n(v, n).rule == v.rule,
    decreases n,
{
    if n > 0 && has_next(v) {
        lemma_stepped_n_forward(stepped(v), (n - 1) as nat);
    }
}

proof fn lemma_skip_spaces_forward<C>(v: ParserView<C>)
    requires
        parser_ok(v),
    ensures
        parser_ok(skip_spaces(v)),
        skip_spaces(v).tokens == v.tokens,
        v.position <= skip_spaces(v).position,
        shares_collections(skip_spaces(v), v),
        skip_spaces(v).depth == v.depth,
        skip_spaces(v).rule == v.rule,
    decreases v.tokens.len() - v.position,
{
    if is_space_any(current_of(v).token) && has_next(v) {
        lemma_skip_spaces_forward(stepped(v));
    }
}

/// The cursor stays on the token list and never moves back: one step, `n`
/// steps and skipping spaces keep the tokens, the rule, the depth and the
/// shared collections, and leave the cursor where it was or further on.
pub proof fn law_cursor_moves_forward<C>(v: ParserView<C>, n: nat)
    requires
        parser_ok(v),
    ensures
        parser_ok(stepped(v)),
        stepped(v).tokens == v.tokens,
        v.position <= stepped(v).position <= v.position + 1,
        shares_collections(stepped(v), v),
        parser_ok(stepped_n(v, n)),
        stepped_n(v, n).tokens == v.tokens,
        v.position <= stepped_n(v, n).position,
        shares_collections(stepped_n(v, n), v),
        stepped_n(v, n).depth == v.depth,
        stepped_n(v, n).rule == v.rule,
        parser_ok(skip_spaces(v)),
        skip_spaces(v).tokens == v.tokens,
        v.position <= skip_spaces(v).position,
        shares_collections(skip_spaces(v), v),
        skip_spaces(v).depth == v.depth,
        skip_spaces(v).rule == v.rule,
{
    lemma_stepped_n_forward(v, n);
    lemma_skip_spaces_forward(v);
}

/// A copy for another rule, a state one rule deeper or shallower, and a state
/// that took over a copy's cursor or flags or merged a nested parse hold the
/// same collections as the state they came from: copies share them.
pub proof fn law_copies_share_collections<C>(
    v: ParserView<C>,
    child: ParserView<C>,
    rule: Rule,
    out: UnstructuredParseResult,
)
    ensures
        shares_collections(ParserView { rule: rule, ..v }, v),
        shares_collections(deeper(v), v),
        shares_collections(shallower(v), v),
        shares_collections(with_flags_of(v, child), v),
        shares_collections(updated_from(v, child), v),
        shares_collections(merged_with(v, out), v),
{
}

/// Writing the markers out changes nothing: for tokens that lack both markers,
/// the list with a start marker in front and an end marker behind is one of
/// their framings, framing it again gives it back unchanged, every framing of
/// the tokens is that list up to which empty marker stands at each end, and
/// both spell the same text.
pub proof fn law_explicit_markers_change_nothing(
    tokens: Seq<ExtractedToken>,
    start: ExtractedToken,
    end: ExtractedToken,
    x: Seq<ExtractedToken>,
)
    requires
        tokens.len() > 0,
        tokens[0].token != Token::InputStart,
        tokens.last().token != Token::InputEnd,
        is_start_marker(start),
        is_end_marker(end, tokens.last().span.end),
    ensures
        is_framing_of(tokens, seq![start] + tokens + seq![end]),
        is_framing_of(seq![start] + tokens + seq![end], x) <==> x == seq![start] + tokens + seq![end],
        is_framing_of(tokens, x) ==> {
            &&& x.len() == tokens.len() + 2
            &&& is_start_marker(x[0])
            &&& x.subrange(1, x.len() - 1) == tokens
            &&& is_end_marker(x.last(), tokens.last().span.end)
            &&& is_framing_of(x, x)
        },
        joined_text(seq![start] + tokens + seq![end]) == joined_text(tokens),
{
    let w = seq![start] + tokens + seq![end];
    let middle = seq![start] + tokens;
    assert(middle.subrange(1, middle.len() as int) =~= tokens);
    assert(w.drop_last() =~= middle);
    assert(middle.last() == tokens.last());
    assert(with_start_marker(tokens, middle));
    assert(with_end_marker(middle, w));
    assert(w[0] == start);
    assert(w.last() == end);
    assert(with_start_marker(w, w));
    assert(with_end_marker(w, w));
    if is_framing_of(w, x) {
        let m = choose|m: Seq<ExtractedToken>| with_start_marker(w, m) && #[trigger] with_end_marker(m, x);
        assert(m == w);
    }
    if is_framing_of(tokens, x) {
        let m = choose|m: Seq<ExtractedToken>|
            with_start_marker(tokens, m) && #[trigger] with_end_marker(m, x);
        assert(m.last() == tokens.last()) by {
            assert(m.subrange(1, m.len() as int)[tokens.len() - 1] == m[m.len() - 1]);
        }
        assert(x.subrange(1, x.len() - 1) =~= tokens) by {
            assert(x.drop_last() == m);
            assert forall|i: int| 0 <= i < tokens.len() implies x.subrange(1, x.len() - 1)[i]
                == tokens[i] by {
                assert(m.subrange(1, m.len() as int)[i] == m[i + 1]);
                assert(x.drop_last()[i + 1] == x[i + 1]);
            }
        }
        assert(x[0] == m[0]);
        assert(with_start_marker(x, x));
        assert(with_end_marker(x, x));
    }
    law_framing_adds_markers_only(tokens, w);
}


/// Taking over a copy's progress takes over where it stands and how it got
/// there: its tokens, cursor, start-of-line flag, footnote flag and
/// partial-element mode. The block flags only grow, from either side, and the
/// rule, the depth and the shared collections stay the parser's own.
pub proof fn law_update_takes_over_progress<C>(v: ParserView<C>, child: ParserView<C>)
    ensures
        updated_from(v, child).tokens == child.tokens,
        updated_from(v, child).position == child.position,
        updated_from(v, child).start_of_line == child.start_of_line,
        updated_from(v, child).in_footnote == child.in_footnote,
        updated_from(v, child).accepts_partial == child.accepts_partial,
        v.has_toc_block ==> updated_from(v, child).has_toc_block,
        child.has_toc_block ==> updated_from(v, child).has_toc_block,
        updated_from(v, child).has_toc_block ==> v.has_toc_block || child.has_toc_block,
        v.has_footnote_block ==> updated_from(v, child).has_footnote_block,
        child.has_footnote_block ==> updated_from(v, child).has_footnote_block,
        updated_from(v, child).has_footnote_block ==> v.has_footnote_block
            || child.has_footnote_block,
        updated_from(v, child).rule == v.rule,
        updated_from(v, child).depth == v.depth,
        shares_collections(updated_from(v, child), v),
        current_of(updated_from(v, child)) == current_of(child),
{
}

/// A token pair holds exactly when the current token is the first and the
/// token after it is the second; so it never holds where the current token
/// alone would not, nor at the last token.
pub proof fn law_token_pair_needs_both<C>(v: ParserView<C>, a: Token, b: Token)
    requires
        parser_ok(v),
    ensures
        condition_holds(v, ParseCondition::TokenPair(a, b)) <==> {
            &&& v.tokens[v.position].token == a
            &&& v.position + 1 < v.tokens.len()
            &&& v.tokens[v.position + 1].token == b
        },
        condition_holds(v, ParseCondition::TokenPair(a, b)) ==> condition_holds(
            v,
            ParseCondition::CurrentToken(a),
        ),
        condition_holds(v, ParseCondition::TokenPair(a, b)) ==> has_next(v),
        condition_holds(v, ParseCondition::CurrentToken(a)) <==> v.tokens[v.position].token == a,
{
}

/// A nested parse that succeeds never clears a block flag: each flag afterwards
/// is set exactly when the page or the nested parse had it. Nothing else of the
/// parser changes.
pub proof fn law_nested_parse_keeps_flags<C>(v: ParserView<C>, out: UnstructuredParseResult)
    ensures
        v.has_toc_block ==> merged_with(v, out).has_toc_block,
        out.has_toc_block ==> merged_with(v, out).has_toc_block,
        merged_with(v, out).has_toc_block ==> v.has_toc_block || out.has_toc_block,
        v.has_footnote_block ==> merged_with(v, out).has_footnote_block,
        out.has_footnote_block ==> merged_with(v, out).has_footnote_block,
        merged_with(v, out).has_footnote_block ==> v.has_footnote_block || out.has_footnote_block,
        merged_with(v, out).tokens == v.tokens,
        merged_with(v, out).position == v.position,
        merged_with(v, out).start_of_line == v.start_of_line,
        shares_collections(merged_with(v, out), v),
{
}

} // verus!
