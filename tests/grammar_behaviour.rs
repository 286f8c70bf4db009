use pilator::components::items::RegexComponent;
use pilator::components::regex::Regex;
use pilator::parser::naive_parser::NaiveParser;
use pilator::parser::{ParseError, Parser};

fn lit(s: &str) -> RegexComponent {
    RegexComponent::Literal(s.to_string())
}

fn toks(v: &[&str]) -> Vec<String> {
    v.iter().map(|s| s.to_string()).collect()
}

fn single(components: Vec<RegexComponent>) -> NaiveParser {
    let mut p = NaiveParser::new();
    p.add_regex(Regex::new(components));
    p
}

#[test]
fn trim_outer_white_space_is_ignored() {
    let p = single(vec![lit("a"), lit(" "), lit("a")]);
    assert_eq!(p.parse("  a a \n", None), Ok(toks(&["a", " ", "a"])));
    assert_eq!(p.parse("  a a \n", None), p.parse("a a", None));
    assert_eq!(p.parse("\u{3000}\u{a0}a a\u{2029}", None), Ok(toks(&["a", " ", "a"])));
}

#[test]
fn trim_twice_same_verdict() {
    let p = single(vec![lit("x")]);
    assert_eq!(p.parse(" \t y ", None), p.parse("y", None));
    assert_eq!(p.parse(" \t y ", None), Err(ParseError::NoMatch));
}

#[test]
fn concatenation_of_disjoint_grammars() {
    let a = Regex::new(vec![lit("a"), RegexComponent::ZeroOrMore(Regex::new(vec![lit("b")]))]);
    let b = Regex::new(vec![lit("c"), lit("d")]);
    let pa = NaiveParser::with_regexes(vec![a.clone()]);
    let pb = NaiveParser::with_regexes(vec![b.clone()]);
    let ta = pa.parse("abb", None).unwrap();
    let tb = pb.parse("cd", None).unwrap();
    let both = NaiveParser::with_regexes(vec![a.concat(b)]);
    let mut expected = ta.clone();
    expected.extend(tb);
    assert_eq!(both.parse("abbcd", None), Ok(expected));
    assert_eq!(both.parse("abbcd", None), Ok(toks(&["a", "bb", "c", "d"])));
}

#[test]
fn concat_appends_components() {
    let a = Regex::new(vec![lit("a")]);
    let b = Regex::new(vec![lit("b"), lit("c")]);
    let c = a.concat(b);
    assert_eq!(c.components.len(), 3);
    let p = NaiveParser::with_regexes(vec![c]);
    assert_eq!(p.parse("abc", None), Ok(toks(&["a", "b", "c"])));
}

#[test]
fn zero_or_more_alone_matches_empty_input() {
    let p = single(vec![RegexComponent::ZeroOrMore(Regex::new(vec![lit("x")]))]);
    assert_eq!(p.parse("", None), Ok(Vec::<String>::new()));
    assert_eq!(p.parse("   ", None), Ok(Vec::<String>::new()));
}

#[test]
fn greedy_merge_of_repetition() {
    let p = single(vec![
        lit("a"),
        lit("b"),
        RegexComponent::ZeroOrMore(Regex::new(vec![lit("a")])),
    ]);
    assert_eq!(p.parse("abaa", None), Ok(toks(&["a", "b", "aa"])));
}

#[test]
fn alternation_falls_back_to_right_branch() {
    let p = single(vec![
        lit("a"),
        RegexComponent::Or(Regex::new(vec![lit("b")]), Regex::new(vec![lit("c")])),
        lit("b"),
    ]);
    assert_eq!(p.parse("acb", None), Ok(toks(&["a", "c", "b"])));
    assert_eq!(p.parse("abb", None), Ok(toks(&["a", "b", "b"])));
    assert_eq!(p.parse("adb", None), Err(ParseError::NoMatch));
}

#[test]
fn alternation_left_branch_has_precedence() {
    let p = single(vec![RegexComponent::Or(
        Regex::new(vec![lit("a")]),
        Regex::new(vec![lit("a"), lit("b")]),
    ), lit("b")]);
    assert_eq!(p.parse("ab", None), Ok(toks(&["a", "b"])));
}

#[test]
fn group_tokens_are_flattened() {
    let p = single(vec![
        lit("a"),
        RegexComponent::SubRegex(Regex::new(vec![lit("b"), lit("c")])),
        lit("b"),
    ]);
    assert_eq!(p.parse("abcb", None), Ok(toks(&["a", "b", "c", "b"])));
}

#[test]
fn repetition_with_group_keeps_every_piece() {
    let p = single(vec![RegexComponent::ZeroOrMore(Regex::new(vec![
        lit("a"),
        RegexComponent::SubRegex(Regex::new(vec![lit("b")])),
    ]))]);
    assert_eq!(p.parse("abab", None), Ok(toks(&["a", "b", "a", "b"])));
}

#[test]
fn two_full_matches_are_ambiguous() {
    let mut p = NaiveParser::new();
    p.add_regex(Regex::new(vec![lit("ab")]));
    p.add_regex(Regex::new(vec![lit("a"), lit("b")]));
    assert_eq!(p.parse("ab", None), Err(ParseError::AmbiguousMatch));
}

#[test]
fn one_of_several_candidates_matches() {
    let mut p = NaiveParser::new();
    p.add_regex(Regex::new(vec![lit("x")]));
    p.add_regex(Regex::new(vec![lit("a"), lit("b")]));
    p.add_regex(Regex::new(vec![lit("a")]));
    assert_eq!(p.parse("ab", None), Ok(toks(&["a", "b"])));
}

#[test]
fn empty_registry_matches_nothing() {
    let p = NaiveParser::new();
    assert_eq!(p.parse("", None), Err(ParseError::NoMatch));
    assert_eq!(p.parse("anything", None), Err(ParseError::NoMatch));
}

#[test]
fn input_left_over_is_no_match() {
    let p = single(vec![lit("a")]);
    assert_eq!(p.parse("ab", None), Err(ParseError::NoMatch));
}

#[test]
fn required_text_on_empty_input_is_no_match() {
    let p = single(vec![lit("a")]);
    assert_eq!(p.parse("", None), Err(ParseError::NoMatch));
}

#[test]
fn empty_literal_never_matches() {
    let p = single(vec![lit(""), lit("a")]);
    assert_eq!(p.parse("a", None), Err(ParseError::NoMatch));
}

#[test]
fn one_or_more_needs_one_pass() {
    let p = single(vec![lit("a"), RegexComponent::OneOrMore(Regex::new(vec![lit("b")]))]);
    assert_eq!(p.parse("a", None), Err(ParseError::NoMatch));
    assert_eq!(p.parse("abbb", None), Ok(toks(&["a", "bbb"])));
}

#[test]
fn repetition_counts_only_completed_passes() {
    let p = single(vec![
        RegexComponent::ZeroOrMore(Regex::new(vec![lit("a"), lit("b")])),
        lit("a"),
    ]);
    assert_eq!(p.parse("aba", None), Ok(toks(&["ab", "a"])));
}

#[test]
fn failed_optional_pass_consumes_nothing() {
    let p = single(vec![
        RegexComponent::ZeroOrOne(Regex::new(vec![lit("a"), lit("b")])),
        lit("a"),
        lit("c"),
    ]);
    assert_eq!(p.parse("ac", None), Ok(toks(&["a", "c"])));
}

#[test]
fn repetition_of_empty_grammar_stops() {
    let p = single(vec![RegexComponent::ZeroOrMore(Regex::new(vec![])), lit("a")]);
    assert_eq!(p.parse("a", None), Ok(toks(&["a"])));
}

#[test]
fn nullable_group_is_skipped() {
    let p = single(vec![
        lit("a"),
        RegexComponent::SubRegex(Regex::new(vec![RegexComponent::ZeroOrOne(Regex::new(
            vec![lit("z")],
        ))])),
        lit("b"),
    ]);
    assert_eq!(p.parse("ab", None), Ok(toks(&["a", "b"])));
}

#[test]
fn classified_text_matches_like_literal() {
    let p = single(vec![
        RegexComponent::Keyword("if".to_string()),
        RegexComponent::Identifier("x".to_string()),
        RegexComponent::Operator("<=".to_string()),
    ]);
    assert_eq!(p.parse("ifx<=", None), Ok(toks(&["if", "x", "<="])));
}

#[test]
fn characters_not_bytes() {
    let p = single(vec![lit("é"), RegexComponent::ZeroOrMore(Regex::new(vec![lit("ß")]))]);
    assert_eq!(p.parse("éßß", None), Ok(toks(&["é", "ßß"])));
}

#[test]
fn nullability_of_each_kind() {
    let inner = Regex::new(vec![lit("a")]);
    assert!(!lit("a").is_nullable());
    assert!(!RegexComponent::Keyword("a".to_string()).is_nullable());
    assert!(RegexComponent::ZeroOrMore(inner.clone()).is_nullable());
    assert!(RegexComponent::ZeroOrOne(inner.clone()).is_nullable());
    assert!(!RegexComponent::OneOrMore(Regex::new(vec![])).is_nullable());
    assert!(!RegexComponent::Or(Regex::new(vec![]), Regex::new(vec![])).is_nullable());
    assert!(!RegexComponent::SubRegex(inner.clone()).is_nullable());
    assert!(RegexComponent::SubRegex(Regex::new(vec![
        RegexComponent::ZeroOrMore(inner.clone()),
        RegexComponent::ZeroOrOne(inner.clone()),
    ]))
    .is_nullable());
    assert!(RegexComponent::SubRegex(Regex::new(vec![])).is_nullable());
}

#[test]
fn registry_add_remove_list() {
    let mut p = NaiveParser::new();
    assert_eq!(p.add_regex(Regex::new(vec![lit("a")])), 0);
    assert_eq!(p.add_regex(Regex::new(vec![lit("b")])), 1);
    assert_eq!(p.add_regex(Regex::new(vec![lit("c")])), 2);
    assert_eq!(p.get_regexes().len(), 3);
    p.remove_regex_with_index(1);
    assert_eq!(p.get_regexes().len(), 2);
    assert_eq!(p.parse("b", None), Err(ParseError::NoMatch));
    assert_eq!(p.parse("c", None), Ok(toks(&["c"])));
    let q = NaiveParser::with_regexes(vec![Regex::new(vec![lit("d")])]);
    assert_eq!(q.get_regexes().len(), 1);
    assert_eq!(q.parse("d", None), Ok(toks(&["d"])));
}
