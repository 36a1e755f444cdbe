use std::rc::Rc;

use lib::data::{NullPageCallbacks, PageInfo, WikitextMode, WikitextSettings};
use lib::parser::{Parser, UnstructuredParseResult, MAX_RECURSION_DEPTH};
use lib::token::{tokenize, ExtractedToken, Token, Tokenization};
use lib::tree::{
    render_text, AttributeMap, Container, ContainerType, Element, Elements, HeadingLevel, PageRef,
};
use lib::warning::{ParseCondition, ParseSuccess, ParseWarning, ParseWarningKind, Rule};

fn check_newline_flags(input: &str, expected_steps: &[bool]) {
    let page_info = PageInfo::dummy();
    let settings = WikitextSettings::from_mode(WikitextMode::Page);
    let tokens = tokenize(input);
    let mut parser = Parser::new(&tokens, &page_info, Rc::new(NullPageCallbacks {}), &settings);
    let mut actual_steps = Vec::new();

    // Iterate through the tokens.
    while let Ok(_) = parser.step() {
        actual_steps.push(parser.start_of_line());
    }

    // Pop off flag corresponding to Token::InputEnd.
    actual_steps.pop();

    assert_eq!(
        actual_steps.as_slice(),
        expected_steps,
        "Series of start-of-line flags does not match expected",
    );
}

#[test]
fn parser_newline_flag() {
    check_newline_flags("A", &[true]);
    check_newline_flags("A\nB C", &[true, false, true, false, false]);
    check_newline_flags(
        "A\nB\n\nC D\nE",
        &[true, false, true, false, true, false, false, false, true],
    );
    check_newline_flags(
        "\nA\n\nB\n\n\nC D",
        &[true, true, false, true, false, true, false, false],
    );
}

fn kinds(t: &Tokenization) -> Vec<Token> {
    t.tokens.iter().map(|x| x.token).collect()
}

fn text(s: &str) -> Element {
    Element::Text(s.to_string())
}

fn success(elements: Vec<Element>) -> ParseSuccess {
    ParseSuccess {
        item: Elements::Multiple(elements),
        warnings: Vec::new(),
        paragraph_safe: true,
    }
}

fn token(kind: Token, slice: &str, start: usize, end: usize) -> ExtractedToken {
    ExtractedToken {
        token: kind,
        slice: slice.to_string(),
        span: start..end,
    }
}

#[test]
fn tokenize_cuts_runs_and_marks_ends() {
    let t = tokenize("ab  c\n\n=[x]!");
    assert_eq!(
        kinds(&t),
        vec![
            Token::InputStart,
            Token::Identifier,
            Token::Whitespace,
            Token::Identifier,
            Token::ParagraphBreak,
            Token::Equals,
            Token::LeftBracket,
            Token::Identifier,
            Token::RightBracket,
            Token::Other,
            Token::InputEnd,
        ]
    );
    let slices: Vec<&str> = t.tokens.iter().map(|x| x.slice.as_str()).collect();
    assert_eq!(slices, vec!["", "ab", "  ", "c", "\n\n", "=", "[", "x", "]", "!", ""]);
    assert_eq!(t.tokens[1].span, 0..2);
    assert_eq!(t.tokens[4].span, 5..7);
    assert_eq!(t.tokens[10].span, 12..12);
    assert_eq!(t.full_text, "ab  c\n\n=[x]!");
}

#[test]
fn tokenize_spells_the_input() {
    for input in ["", "A\nB C", "\n\n\n x==y [[z]]", "héllo wörld\n"] {
        let t = tokenize(input);
        let joined: String = t.tokens.iter().map(|x| x.slice.as_str()).collect();
        assert_eq!(joined, input);
        assert_eq!(t.tokens.first().unwrap().token, Token::InputStart);
        assert_eq!(t.tokens.last().unwrap().token, Token::InputEnd);
    }
}

#[test]
fn tokenize_empty_input_is_only_markers() {
    let t = tokenize("");
    assert_eq!(kinds(&t), vec![Token::InputStart, Token::InputEnd]);
    assert_eq!(t.tokens[1].span, 0..0);
}

#[test]
fn new_parser_starts_at_first_token() {
    let page_info = PageInfo::dummy();
    let settings = WikitextSettings::from_mode(WikitextMode::Page);
    let tokens = tokenize("A B");
    let parser = Parser::new(&tokens, &page_info, Rc::new(NullPageCallbacks {}), &settings);
    assert_eq!(parser.current().token, Token::InputStart);
    assert_eq!(parser.remaining().len(), 4);
    assert_eq!(parser.rule().name, "page");
    assert!(parser.start_of_line());
    assert!(!parser.in_footnote());
    assert!(!parser.has_footnote_block());
    assert!(!parser.has_toc_block());
    assert_eq!(parser.full_text(), "A B");
    assert_eq!(parser.page_info().page, "some-page");
    assert!(parser.settings().enable_page_syntax);
}

#[test]
fn page_callbacks_share_the_same_value() {
    let page_info = PageInfo::dummy();
    let settings = WikitextSettings::from_mode(WikitextMode::Page);
    let tokens = tokenize("A");
    let callbacks = Rc::new(NullPageCallbacks {});
    let parser = Parser::new(&tokens, &page_info, callbacks.clone(), &settings);
    let got = parser.page_callbacks();
    assert!(Rc::ptr_eq(&got, &callbacks));
    assert_eq!(Rc::strong_count(&callbacks), 3);
}

#[test]
fn step_at_end_warns_and_stays() {
    let page_info = PageInfo::dummy();
    let settings = WikitextSettings::from_mode(WikitextMode::Page);
    let tokens = tokenize("A");
    let mut parser = Parser::new(&tokens, &page_info, Rc::new(NullPageCallbacks {}), &settings);
    assert_eq!(parser.step().unwrap().slice, "A");
    assert_eq!(parser.step().unwrap().token, Token::InputEnd);
    let w = parser.step().unwrap_err();
    assert_eq!(w.kind, ParseWarningKind::EndOfInput);
    assert_eq!(w.token, Token::InputEnd);
    assert_eq!(w.rule, "page");
    assert_eq!(w.span, 1..1);
    assert_eq!(parser.current().token, Token::InputEnd);
}

#[test]
fn step_n_moves_or_stops_at_the_end() {
    let page_info = PageInfo::dummy();
    let settings = WikitextSettings::from_mode(WikitextMode::Page);
    let tokens = tokenize("A B C");
    let mut parser = Parser::new(&tokens, &page_info, Rc::new(NullPageCallbacks {}), &settings);
    assert!(parser.step_n(0).is_ok());
    assert_eq!(parser.current().token, Token::InputStart);
    assert!(parser.step_n(3).is_ok());
    assert_eq!(parser.current().slice, "B");
    // Steps that add up: two more from here, as five from the start would.
    let mut other = Parser::new(&tokens, &page_info, Rc::new(NullPageCallbacks {}), &settings);
    assert!(other.step_n(5).is_ok());
    assert!(parser.step_n(2).is_ok());
    assert_eq!(parser.current().slice, other.current().slice);
    let w = parser.step_n(10).unwrap_err();
    assert_eq!(w.kind, ParseWarningKind::EndOfInput);
    assert_eq!(parser.current().token, Token::InputEnd);
    assert!(!parser.start_of_line());
}

#[test]
fn look_ahead_reads_remaining_tokens() {
    let page_info = PageInfo::dummy();
    let settings = WikitextSettings::from_mode(WikitextMode::Page);
    let tokens = tokenize("A=B");
    let parser = Parser::new(&tokens, &page_info, Rc::new(NullPageCallbacks {}), &settings);
    assert_eq!(parser.look_ahead(0).unwrap().slice, "A");
    assert_eq!(parser.look_ahead(1).unwrap().token, Token::Equals);
    assert_eq!(parser.look_ahead(3).unwrap().token, Token::InputEnd);
    assert!(parser.look_ahead(4).is_none());
    assert_eq!(parser.look_ahead(0).unwrap().slice, parser.remaining()[0].slice);
    assert_eq!(parser.look_ahead_warn(2).unwrap().slice, "B");
    let w = parser.look_ahead_warn(4).unwrap_err();
    assert_eq!(w.kind, ParseWarningKind::EndOfInput);
    assert_eq!(w.token, Token::InputStart);
    assert_eq!(
        parser.next_two_tokens(),
        (Token::InputStart, Some(Token::Identifier))
    );
    assert_eq!(
        parser.next_three_tokens(),
        (Token::InputStart, Some(Token::Identifier), Some(Token::Equals))
    );
}

#[test]
fn next_tokens_near_the_end() {
    let page_info = PageInfo::dummy();
    let settings = WikitextSettings::from_mode(WikitextMode::Page);
    let tokens = tokenize("");
    let mut parser = Parser::new(&tokens, &page_info, Rc::new(NullPageCallbacks {}), &settings);
    assert_eq!(
        parser.next_three_tokens(),
        (Token::InputStart, Some(Token::InputEnd), None)
    );
    parser.step().unwrap();
    assert_eq!(parser.next_two_tokens(), (Token::InputEnd, None));
}

#[test]
fn same_pointer_tracks_steps() {
    let page_info = PageInfo::dummy();
    let settings = WikitextSettings::from_mode(WikitextMode::Page);
    let tokens = tokenize("A B");
    let mut parser = Parser::new(&tokens, &page_info, Rc::new(NullPageCallbacks {}), &settings);
    let before = parser.remaining();
    assert!(parser.same_pointer(before));
    parser.step().unwrap();
    assert!(!parser.same_pointer(before));
    assert!(parser.same_pointer(parser.remaining()));
}

#[test]
fn same_pointer_refuses_an_equal_copy() {
    let page_info = PageInfo::dummy();
    let settings = WikitextSettings::from_mode(WikitextMode::Page);
    let tokens = tokenize("A B");
    let other = tokenize("A B");
    let parser = Parser::new(&tokens, &page_info, Rc::new(NullPageCallbacks {}), &settings);
    let copy = &other.tokens[1..];
    assert_eq!(copy.len(), parser.remaining().len());
    assert!(!parser.same_pointer(copy));
    assert!(!parser.same_pointer(&tokens.tokens[2..]));
    assert!(parser.same_pointer(&tokens.tokens[1..]));
}

#[test]
fn get_token_takes_matching_token() {
    let page_info = PageInfo::dummy();
    let settings = WikitextSettings::from_mode(WikitextMode::Page);
    let tokens = tokenize("A B");
    let mut parser = Parser::new(&tokens, &page_info, Rc::new(NullPageCallbacks {}), &settings);
    parser.step().unwrap();
    let w = parser
        .get_token(Token::Whitespace, ParseWarningKind::RuleFailed)
        .unwrap_err();
    assert_eq!(w.kind, ParseWarningKind::RuleFailed);
    assert_eq!(parser.current().slice, "A");
    assert_eq!(
        parser
            .get_token(Token::Identifier, ParseWarningKind::RuleFailed)
            .unwrap(),
        "A"
    );
    assert_eq!(parser.current().token, Token::Whitespace);
}

#[test]
fn get_token_at_last_token_warns_end_of_input() {
    let page_info = PageInfo::dummy();
    let settings = WikitextSettings::from_mode(WikitextMode::Page);
    let tokens = tokenize("");
    let mut parser = Parser::new(&tokens, &page_info, Rc::new(NullPageCallbacks {}), &settings);
    parser.step().unwrap();
    let w = parser
        .get_token(Token::InputEnd, ParseWarningKind::RuleFailed)
        .unwrap_err();
    assert_eq!(w.kind, ParseWarningKind::EndOfInput);
}

#[test]
fn optional_tokens_are_skipped_only_when_present() {
    let page_info = PageInfo::dummy();
    let settings = WikitextSettings::from_mode(WikitextMode::Page);
    let tokens = tokenize("A\n B");
    let mut parser = Parser::new(&tokens, &page_info, Rc::new(NullPageCallbacks {}), &settings);
    parser.step().unwrap();
    assert!(parser.get_optional_line_break().is_ok());
    assert_eq!(parser.current().slice, "A");
    assert!(parser.get_optional_token(Token::Identifier).is_ok());
    assert_eq!(parser.current().token, Token::LineBreak);
    assert!(parser.get_optional_space().is_ok());
    assert_eq!(parser.current().token, Token::LineBreak);
    assert!(parser.get_optional_line_break().is_ok());
    assert_eq!(parser.current().token, Token::Whitespace);
    assert!(parser.get_optional_space().is_ok());
    assert_eq!(parser.current().slice, "B");
}

#[test]
fn spaces_any_skips_to_first_other_token() {
    let page_info = PageInfo::dummy();
    let settings = WikitextSettings::from_mode(WikitextMode::Page);
    let tokens = tokenize("A \n=\n\n B");
    let mut parser = Parser::new(&tokens, &page_info, Rc::new(NullPageCallbacks {}), &settings);
    parser.step_n(2).unwrap();
    assert_eq!(parser.current().token, Token::Whitespace);
    assert!(parser.get_optional_spaces_any().is_ok());
    assert_eq!(parser.current().slice, "B");
    assert!(!parser.start_of_line());
    assert!(parser.get_optional_spaces_any().is_ok());
    assert_eq!(parser.current().slice, "B");
}

#[test]
fn spaces_any_without_end_marker_runs_out() {
    let page_info = PageInfo::dummy();
    let settings = WikitextSettings::from_mode(WikitextMode::Page);
    let tokens = Tokenization::new(
        " ".to_string(),
        vec![token(Token::InputStart, "", 0, 0), token(Token::Whitespace, " ", 0, 1)],
    );
    let mut parser = Parser::new(&tokens, &page_info, Rc::new(NullPageCallbacks {}), &settings);
    parser.step().unwrap();
    let w = parser.get_optional_spaces_any().unwrap_err();
    assert_eq!(w.kind, ParseWarningKind::EndOfInput);
    assert_eq!(w.token, Token::Whitespace);
}

#[test]
fn evaluate_conditions_and_counts() {
    let page_info = PageInfo::dummy();
    let settings = WikitextSettings::from_mode(WikitextMode::Page);
    let tokens = tokenize("A=B");
    let mut parser = Parser::new(&tokens, &page_info, Rc::new(NullPageCallbacks {}), &settings);
    parser.step().unwrap();

    let mut n = 7;
    assert!(!parser.evaluate(ParseCondition::CurrentToken(Token::Equals), &mut Some(&mut n)));
    assert_eq!(n, 7);
    assert!(parser.evaluate(ParseCondition::CurrentToken(Token::Identifier), &mut Some(&mut n)));
    assert_eq!(n, 1);

    assert!(parser.evaluate(
        ParseCondition::TokenPair(Token::Identifier, Token::Equals),
        &mut None
    ));

    let mut n = 0;
    assert!(!parser.evaluate(
        ParseCondition::TokenPair(Token::Identifier, Token::Identifier),
        &mut Some(&mut n)
    ));
    assert!(!parser.evaluate(
        ParseCondition::TokenPair(Token::Equals, Token::Identifier),
        &mut Some(&mut n)
    ));
    assert_eq!(n, 0);

    let conditions = [
        ParseCondition::CurrentToken(Token::Equals),
        ParseCondition::TokenPair(Token::Identifier, Token::Equals),
    ];
    assert!(parser.evaluate_any(&conditions, &mut Some(&mut n)));
    assert_eq!(n, 1);
    let mut n = 0;
    assert!(!parser.evaluate_any(&conditions[..1], &mut Some(&mut n)));
    assert!(!parser.evaluate_any(&[], &mut Some(&mut n)));
    assert_eq!(n, 0);
    assert!(parser.evaluate_any(&conditions[1..], &mut None));
}

#[test]
fn pair_condition_fails_at_last_token() {
    let page_info = PageInfo::dummy();
    let settings = WikitextSettings::from_mode(WikitextMode::Page);
    let tokens = tokenize("");
    let mut parser = Parser::new(&tokens, &page_info, Rc::new(NullPageCallbacks {}), &settings);
    parser.step().unwrap();
    let mut n = 0;
    assert!(!parser.evaluate(
        ParseCondition::TokenPair(Token::InputEnd, Token::InputEnd),
        &mut Some(&mut n)
    ));
    assert_eq!(n, 0);
}

#[test]
fn recursion_depth_is_limited() {
    let page_info = PageInfo::dummy();
    let settings = WikitextSettings::from_mode(WikitextMode::Page);
    let tokens = tokenize("A");
    let mut parser = Parser::new(&tokens, &page_info, Rc::new(NullPageCallbacks {}), &settings);
    for _ in 0..MAX_RECURSION_DEPTH {
        assert!(parser.depth_increment().is_ok());
    }
    let w = parser.depth_increment().unwrap_err();
    assert_eq!(w.kind, ParseWarningKind::RecursionDepthExceeded);
    parser.depth_decrement();
    assert!(parser.depth_increment().is_err());
    parser.depth_decrement();
    parser.depth_decrement();
    assert!(parser.depth_increment().is_ok());
}

#[test]
fn page_syntax_depends_on_mode() {
    let page_info = PageInfo::dummy();
    let tokens = tokenize("A");
    let page = WikitextSettings::from_mode(WikitextMode::Page);
    let parser = Parser::new(&tokens, &page_info, Rc::new(NullPageCallbacks {}), &page);
    assert!(parser.check_page_syntax().is_ok());
    let forum = WikitextSettings::from_mode(WikitextMode::ForumPost);
    let parser = Parser::new(&tokens, &page_info, Rc::new(NullPageCallbacks {}), &forum);
    let w = parser.check_page_syntax().unwrap_err();
    assert_eq!(w.kind, ParseWarningKind::NotSupportedMode);
    assert_eq!(w.rule, "page");
}

#[test]
fn settings_for_each_mode() {
    let s = WikitextSettings::from_mode(WikitextMode::Draft);
    assert!(s.enable_page_syntax && s.use_true_ids && s.allow_local_paths);
    let s = WikitextSettings::from_mode(WikitextMode::DirectMessage);
    assert!(!s.enable_page_syntax && !s.use_true_ids && !s.allow_local_paths);
    let s = WikitextSettings::from_mode(WikitextMode::List);
    assert!(s.enable_page_syntax && !s.use_true_ids && s.allow_local_paths);
    assert_eq!(s.mode, WikitextMode::List);
}

#[test]
fn table_of_contents_entries_are_plain_text() {
    let page_info = PageInfo::dummy();
    let settings = WikitextSettings::from_mode(WikitextMode::Page);
    let tokens = tokenize("A");
    let mut parser = Parser::new(&tokens, &page_info, Rc::new(NullPageCallbacks {}), &settings);
    let name = vec![
        text("Hello "),
        Element::Container(Container::new(
            ContainerType::Bold,
            vec![text("World")],
            AttributeMap::new(),
        )),
        Element::LineBreak,
    ];
    parser.push_table_of_contents_entry(HeadingLevel::Two, &name);
    parser.push_table_of_contents_entry(HeadingLevel::One, &[text("x")]);
    let toc = parser.remove_table_of_contents();
    assert_eq!(toc, vec![(1, "Hello World\n".to_string()), (0, "x".to_string())]);
    assert!(parser.remove_table_of_contents().is_empty());
}

#[test]
fn render_text_flattens_elements() {
    let nested = Element::Container(Container::new(
        ContainerType::Paragraph,
        vec![
            text("a"),
            Element::Container(Container::new(
                ContainerType::Italics,
                vec![text("b"), Element::LineBreak],
                AttributeMap::new(),
            )),
        ],
        AttributeMap::new(),
    ));
    assert_eq!(render_text(&[nested, text("c")]), "ab\nc");
    assert_eq!(render_text(&[]), "");
}

#[test]
fn heading_levels_count_from_one() {
    assert_eq!(HeadingLevel::One.value(), 1);
    assert_eq!(HeadingLevel::Six.value(), 6);
}

#[test]
fn footnotes_and_links_are_collected_and_removed() {
    let page_info = PageInfo::dummy();
    let settings = WikitextSettings::from_mode(WikitextMode::Page);
    let tokens = tokenize("A");
    let mut parser = Parser::new(&tokens, &page_info, Rc::new(NullPageCallbacks {}), &settings);
    parser.push_footnote(vec![text("one")]);
    parser.push_footnote(vec![]);
    let notes = parser.remove_footnotes();
    assert_eq!(notes.len(), 2);
    assert_eq!(render_text(&notes[0]), "one");
    assert!(notes[1].is_empty());
    assert!(parser.remove_footnotes().is_empty());

    parser.push_internal_link(PageRef {
        site: None,
        page: "start".to_string(),
    });
    parser.push_internal_link(PageRef {
        site: Some("other".to_string()),
        page: "x".to_string(),
    });
    let links = parser.remove_internal_links();
    assert_eq!(links.len(), 2);
    assert_eq!(links[0].page, "start");
    assert_eq!(links[1].site.as_deref(), Some("other"));
    assert!(parser.remove_internal_links().is_empty());
}

#[test]
fn appending_moves_entries_to_the_end() {
    let page_info = PageInfo::dummy();
    let settings = WikitextSettings::from_mode(WikitextMode::Page);
    let tokens = tokenize("A");
    let mut parser = Parser::new(&tokens, &page_info, Rc::new(NullPageCallbacks {}), &settings);
    parser.push_table_of_contents_entry(HeadingLevel::Three, &[text("first")]);
    parser.push_footnote(vec![text("n1")]);
    let mut toc = vec![(0, "second".to_string())];
    let mut notes = vec![vec![text("n2")], vec![text("n3")]];
    parser.append_toc_and_footnotes(&mut toc, &mut notes);
    assert!(toc.is_empty());
    assert!(notes.is_empty());
    assert_eq!(
        parser.remove_table_of_contents(),
        vec![(2, "first".to_string()), (0, "second".to_string())]
    );
    let all: Vec<String> = parser
        .remove_footnotes()
        .iter()
        .map(|n| render_text(n))
        .collect();
    assert_eq!(all, vec!["n1", "n2", "n3"]);
}

#[test]
fn cache_gives_back_what_was_put() {
    let page_info = PageInfo::dummy();
    let settings = WikitextSettings::from_mode(WikitextMode::Page);
    let tokens = tokenize("A");
    let mut parser = Parser::new(&tokens, &page_info, Rc::new(NullPageCallbacks {}), &settings);
    assert!(parser.cached_node(3).is_none());
    let mut node = success(vec![text("cached")]);
    node.warnings.push(ParseWarning::new(
        ParseWarningKind::RuleFailed,
        Rule::new("bold"),
        parser.current(),
    ));
    parser.put_cached_node(3, 2, node);
    let (consumed, got) = parser.cached_node(3).unwrap();
    assert_eq!(consumed, 2);
    assert!(got.paragraph_safe);
    assert_eq!(got.warnings.len(), 1);
    assert_eq!(got.warnings[0].rule, "bold");
    match got.item {
        Elements::Multiple(v) => assert_eq!(render_text(&v), "cached"),
        _ => panic!("wrong shape"),
    }
    assert!(parser.cached_node(4).is_none());
    parser.put_cached_node(3, 5, success(vec![]));
    assert_eq!(parser.cached_node(3).unwrap().0, 5);
}

#[test]
fn clone_with_rule_copies_state() {
    let page_info = PageInfo::dummy();
    let settings = WikitextSettings::from_mode(WikitextMode::Page);
    let tokens = tokenize("A B");
    let mut parser = Parser::new(&tokens, &page_info, Rc::new(NullPageCallbacks {}), &settings);
    parser.step().unwrap();
    parser.push_footnote(vec![text("n")]);
    parser.set_footnote_block();
    let copy = parser.clone_with_rule(Rule::new("bold"));
    assert_eq!(copy.rule().name, "bold");
    assert_eq!(parser.rule().name, "page");
    assert_eq!(copy.current().slice, "A");
    assert!(copy.has_footnote_block());
    let mut copy = copy;
    assert_eq!(copy.remove_footnotes().len(), 1);
}

#[test]
fn update_takes_over_cursor_and_collections() {
    let page_info = PageInfo::dummy();
    let settings = WikitextSettings::from_mode(WikitextMode::Page);
    let tokens = tokenize("A B");
    let mut parser = Parser::new(&tokens, &page_info, Rc::new(NullPageCallbacks {}), &settings);
    parser.set_toc_block();
    let mut child = parser.clone_with_rule(Rule::new("child"));
    child.step_n(2).unwrap();
    child.set_footnote_flag(true);
    child.set_footnote_block();
    child.push_internal_link(PageRef {
        site: None,
        page: "p".to_string(),
    });

    let mut flags_only = parser.clone_with_rule(Rule::new("other"));
    flags_only.update_flags(&child);
    assert!(flags_only.has_footnote_block());
    assert!(flags_only.has_toc_block());
    assert_eq!(flags_only.current().token, Token::InputStart);
    assert!(!flags_only.in_footnote());

    parser.update(&child);
    assert_eq!(parser.current().token, Token::Whitespace);
    assert!(parser.in_footnote());
    assert!(parser.has_footnote_block());
    assert!(parser.has_toc_block());
    assert_eq!(parser.rule().name, "page");
    assert_eq!(parser.remove_internal_links().len(), 1);
}

#[test]
fn setters_change_one_thing() {
    let page_info = PageInfo::dummy();
    let settings = WikitextSettings::from_mode(WikitextMode::Page);
    let tokens = tokenize("A");
    let mut parser = Parser::new(&tokens, &page_info, Rc::new(NullPageCallbacks {}), &settings);
    parser.set_rule(Rule::new("table"));
    assert_eq!(parser.rule().name, "table");
    parser.set_accepts_partial(lib::tree::AcceptsPartial::ListItem);
    assert_eq!(parser.accepts_partial(), lib::tree::AcceptsPartial::ListItem);
    parser.set_footnote_flag(true);
    assert!(parser.in_footnote());
    parser.set_footnote_flag(false);
    assert!(!parser.in_footnote());
    let w = parser.make_warn(ParseWarningKind::NoRulesMatch);
    assert_eq!(w.rule, "table");
    assert_eq!(w.token, Token::InputStart);
    assert_eq!(w.kind, ParseWarningKind::NoRulesMatch);
}

#[test]
fn evaluate_fn_keeps_cursor_and_collections() {
    let page_info = PageInfo::dummy();
    let settings = WikitextSettings::from_mode(WikitextMode::Page);
    let tokens = tokenize("A B");
    let mut parser = Parser::new(&tokens, &page_info, Rc::new(NullPageCallbacks {}), &settings);
    let matched = parser.evaluate_fn(|p: &mut Parser<NullPageCallbacks>| {
        p.step_n(2)?;
        p.push_footnote(vec![text("from rule")]);
        p.set_toc_block();
        Ok(p.current().token == Token::Whitespace)
    });
    assert!(matched);
    assert_eq!(parser.current().token, Token::InputStart);
    assert!(!parser.has_toc_block());
    assert_eq!(parser.remove_footnotes().len(), 1);
    let failed = parser.evaluate_fn(|p: &mut Parser<NullPageCallbacks>| {
        Err(p.make_warn(ParseWarningKind::RuleFailed))
    });
    assert!(!failed);
}

#[test]
fn save_evaluate_fn_keeps_progress_only_on_success() {
    let page_info = PageInfo::dummy();
    let settings = WikitextSettings::from_mode(WikitextMode::Page);
    let tokens = tokenize("A B");
    let mut parser = Parser::new(&tokens, &page_info, Rc::new(NullPageCallbacks {}), &settings);
    parser.step().unwrap();

    let kept = parser.save_evaluate_fn(|p: &mut Parser<NullPageCallbacks>| {
        p.step()?;
        p.set_footnote_block();
        p.set_footnote_flag(true);
        p.push_internal_link(PageRef {
            site: None,
            page: "x".to_string(),
        });
        Ok(false)
    });
    assert!(kept.is_none());
    assert_eq!(parser.current().slice, "A");
    assert!(parser.has_footnote_block());
    assert!(!parser.in_footnote());
    assert_eq!(parser.remove_internal_links().len(), 1);

    let kept = parser.save_evaluate_fn(|p: &mut Parser<NullPageCallbacks>| {
        p.step_n(2)?;
        p.set_footnote_flag(true);
        Ok(true)
    });
    assert_eq!(kept.unwrap().slice, "A");
    assert_eq!(parser.current().slice, "B");
    assert!(parser.in_footnote());
}

#[test]
fn sub_parse_success_merges_collections() {
    let page_info = PageInfo::dummy();
    let settings = WikitextSettings::from_mode(WikitextMode::Page);
    let tokens = tokenize("A B");
    let mut parser = Parser::new(&tokens, &page_info, Rc::new(NullPageCallbacks {}), &settings);
    parser.push_table_of_contents_entry(HeadingLevel::One, &[text("top")]);
    let sub = vec![token(Token::Identifier, "x", 4, 5), token(Token::Whitespace, " ", 5, 6)];
    let mut seen: Vec<Token> = Vec::new();
    let elements = parser.sub_parse(sub, |t: &Tokenization| {
        seen = t.tokens.iter().map(|x| x.token).collect();
        assert_eq!(t.tokens.last().unwrap().span, 6..6);
        assert_eq!(t.full_text, "A B");
        UnstructuredParseResult {
            result: Ok(success(vec![text("x"), text("y")])),
            table_of_contents_depths: vec![(1, "inner".to_string())],
            footnotes: vec![vec![text("f")]],
            has_footnote_block: true,
            has_toc_block: false,
            internal_links: vec![PageRef {
                site: None,
                page: "q".to_string(),
            }],
        }
    });
    assert_eq!(
        seen,
        vec![Token::InputStart, Token::Identifier, Token::Whitespace, Token::InputEnd]
    );
    assert_eq!(render_text(&elements), "xy");
    assert!(parser.has_footnote_block());
    assert!(!parser.has_toc_block());
    assert_eq!(
        parser.remove_table_of_contents(),
        vec![(0, "top".to_string()), (1, "inner".to_string())]
    );
    assert_eq!(parser.remove_footnotes().len(), 1);
    assert_eq!(parser.remove_internal_links()[0].page, "q");
}

#[test]
fn sub_parse_failure_gives_text_paragraph() {
    let page_info = PageInfo::dummy();
    let settings = WikitextSettings::from_mode(WikitextMode::Page);
    let tokens = tokenize("A");
    let mut parser = Parser::new(&tokens, &page_info, Rc::new(NullPageCallbacks {}), &settings);
    let sub = vec![
        token(Token::InputStart, "", 0, 0),
        token(Token::Identifier, "ab", 0, 2),
        token(Token::Other, "!", 2, 3),
        token(Token::InputEnd, "", 3, 3),
    ];
    let elements = parser.sub_parse(sub, |t: &Tokenization| {
        assert_eq!(t.tokens.len(), 4);
        UnstructuredParseResult {
            result: Err(ParseWarning::new(
                ParseWarningKind::NoRulesMatch,
                Rule::new("page"),
                &t.tokens[0],
            )),
            table_of_contents_depths: vec![(1, "lost".to_string())],
            footnotes: Vec::new(),
            has_footnote_block: true,
            has_toc_block: true,
            internal_links: Vec::new(),
        }
    });
    assert_eq!(elements.len(), 1);
    match &elements[0] {
        Element::Container(c) => {
            assert_eq!(c.ctype, ContainerType::Paragraph);
            assert!(c.attributes.entries.is_empty());
            assert_eq!(render_text(&c.elements), "ab!");
            assert_eq!(c.elements.len(), 1);
        }
        _ => panic!("expected a paragraph"),
    }
    assert!(!parser.has_footnote_block());
    assert!(parser.remove_table_of_contents().is_empty());
}

#[test]
fn sub_parse_of_no_tokens_adds_no_markers() {
    let page_info = PageInfo::dummy();
    let settings = WikitextSettings::from_mode(WikitextMode::Page);
    let tokens = tokenize("A");
    let mut parser = Parser::new(&tokens, &page_info, Rc::new(NullPageCallbacks {}), &settings);
    let elements = parser.sub_parse(Vec::new(), |t: &Tokenization| {
        assert!(t.tokens.is_empty());
        UnstructuredParseResult {
            result: Ok(ParseSuccess {
                item: Elements::Empty,
                warnings: Vec::new(),
                paragraph_safe: false,
            }),
            table_of_contents_depths: Vec::new(),
            footnotes: Vec::new(),
            has_footnote_block: false,
            has_toc_block: false,
            internal_links: Vec::new(),
        }
    });
    assert!(elements.is_empty());
}

#[test]
fn elements_into_vec_and_clone() {
    assert_eq!(Elements::Empty.into_vec().len(), 0);
    let single = Elements::Single(text("s"));
    let copy = single.clone();
    assert_eq!(render_text(&copy.into_vec()), "s");
    assert_eq!(render_text(&single.into_vec()), "s");
}

#[test]
fn dummy_page_info() {
    let info = PageInfo::dummy();
    assert_eq!(info.site, "sandbox");
    assert_eq!(info.title, "A page for the age");
    assert_eq!(info.tags, vec!["tale".to_string(), "_cc".to_string()]);
    assert_eq!(info.language, "default");
    assert!(info.category.is_none());
}

#[test]
fn update_from_unmoved_copy_changes_nothing() {
    let page_info = PageInfo::dummy();
    let settings = WikitextSettings::from_mode(WikitextMode::Page);
    let tokens = tokenize("A B");
    let mut parser = Parser::new(&tokens, &page_info, Rc::new(NullPageCallbacks {}), &settings);
    parser.step().unwrap();
    parser.push_footnote(vec![text("n")]);
    parser.set_footnote_flag(true);
    let copy = parser.clone_with_rule(Rule::new("other"));
    parser.update(&copy);
    assert_eq!(parser.current().slice, "A");
    assert_eq!(parser.rule().name, "page");
    assert!(parser.in_footnote());
    assert!(parser.start_of_line());
    assert!(!parser.has_footnote_block());
    assert_eq!(parser.remove_footnotes().len(), 1);
}

#[test]
fn copies_share_footnotes_and_links() {
    let page_info = PageInfo::dummy();
    let settings = WikitextSettings::from_mode(WikitextMode::Page);
    let tokens = tokenize("A B");
    let mut parser = Parser::new(&tokens, &page_info, Rc::new(NullPageCallbacks {}), &settings);
    let mut copy = parser.clone_with_rule(Rule::new("bold"));
    copy.push_footnote(vec![text("from copy")]);
    copy.push_internal_link(PageRef {
        site: None,
        page: "c".to_string(),
    });
    parser.push_footnote(vec![text("from parent")]);
    drop(copy);
    let notes = parser.remove_footnotes();
    assert_eq!(notes.len(), 2);
    assert_eq!(render_text(&notes[0]), "from copy");
    assert_eq!(render_text(&notes[1]), "from parent");
    let mut late = parser.clone();
    assert!(late.remove_footnotes().is_empty());
    parser.push_internal_link(PageRef {
        site: None,
        page: "p".to_string(),
    });
    let links = late.remove_internal_links();
    assert_eq!(links.len(), 2);
    assert_eq!(links[0].page, "c");
    assert_eq!(links[1].page, "p");
    assert!(parser.remove_internal_links().is_empty());
}

#[test]
fn copies_share_table_of_contents() {
    let page_info = PageInfo::dummy();
    let settings = WikitextSettings::from_mode(WikitextMode::Page);
    let tokens = tokenize("A");
    let mut parser = Parser::new(&tokens, &page_info, Rc::new(NullPageCallbacks {}), &settings);
    let mut copy = parser.clone_with_rule(Rule::new("header"));
    copy.push_table_of_contents_entry(HeadingLevel::Two, &[text("from copy")]);
    assert_eq!(
        parser.remove_table_of_contents(),
        vec![(1, "from copy".to_string())]
    );
    assert!(copy.remove_table_of_contents().is_empty());
}

#[test]
fn copies_share_the_cache() {
    let page_info = PageInfo::dummy();
    let settings = WikitextSettings::from_mode(WikitextMode::Page);
    let tokens = tokenize("A B");
    let mut parser = Parser::new(&tokens, &page_info, Rc::new(NullPageCallbacks {}), &settings);
    let mut copy = parser.clone_with_rule(Rule::new("bold"));
    copy.put_cached_node(2, 1, success(vec![text("by copy")]));
    assert_eq!(parser.cached_node(2).unwrap().0, 1);
    let earlier = parser.clone();
    parser.put_cached_node(0, 3, success(vec![]));
    assert_eq!(earlier.cached_node(0).unwrap().0, 3);
    assert_eq!(copy.cached_node(0).unwrap().0, 3);
    assert!(copy.cached_node(1).is_none());
}

#[test]
fn sub_parse_with_explicit_markers_sees_the_same_tokens() {
    let page_info = PageInfo::dummy();
    let settings = WikitextSettings::from_mode(WikitextMode::Page);
    let tokens = tokenize("A B");
    let bare = vec![token(Token::Identifier, "x", 4, 5), token(Token::Whitespace, " ", 5, 6)];
    let explicit = vec![
        token(Token::InputStart, "", 0, 0),
        token(Token::Identifier, "x", 4, 5),
        token(Token::Whitespace, " ", 5, 6),
        token(Token::InputEnd, "", 6, 6),
    ];
    let mut seen: Vec<Vec<(Token, String, std::ops::Range<usize>)>> = Vec::new();
    for list in [bare, explicit] {
        let mut parser = Parser::new(&tokens, &page_info, Rc::new(NullPageCallbacks {}), &settings);
        let elements = parser.sub_parse(list, |t: &Tokenization| {
            seen.push(
                t.tokens
                    .iter()
                    .map(|x| (x.token, x.slice.clone(), x.span.clone()))
                    .collect(),
            );
            UnstructuredParseResult {
                result: Ok(success(vec![text("x")])),
                table_of_contents_depths: Vec::new(),
                footnotes: Vec::new(),
                has_footnote_block: false,
                has_toc_block: false,
                internal_links: Vec::new(),
            }
        });
        assert_eq!(render_text(&elements), "x");
    }
    assert_eq!(seen[0], seen[1]);
}
