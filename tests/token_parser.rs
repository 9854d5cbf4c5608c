use jira_release::token_parser::{shapes, ComplexPattern, TokenParser};
use regex::Regex;

#[test]
fn token_parser_predicate_pattern() {
    let pred_str = ComplexPattern::predicate("foo", "-", "\\[", "\\]", "[ ]+&[ ]+");
    let pred = Regex::new(&pred_str).unwrap();
    assert!(pred.is_match("[foo-1 & foo-2] hello world!"));
    assert!(pred.is_match("[foo-20]"));
    assert!(pred.captures("[foo-20]").is_some());
    assert!(pred.is_match(" [ foo-100] foobar"));
    assert_eq!(pred.captures("[ foo-1  ] hai").unwrap().name("inner").unwrap().as_str(), "foo-1");
    let pred2_str = ComplexPattern::predicate("foo", "-", "\\(", "\\)", " ");
    let pred2 = Regex::new(&pred2_str).unwrap();
    assert_eq!(
        pred2.captures("(foo-1 foo-2)").unwrap().name("inner").unwrap().as_str(),
        "foo-1 foo-2"
    );
}

#[test]
fn complex_pattern_predicate_pattern() {
    let pred_str = ComplexPattern::predicate("foo", "-", "\\[", "\\]", "[ ]+&[ ]+");
    let pred = Regex::new(&pred_str).unwrap();
    assert!(pred.is_match("[foo-1 & foo-2] hello world!"));
    assert!(pred.is_match(" [ foo-100] foobar"));
    assert_eq!(pred.captures("[ foo-1  ] hai").unwrap().name("inner").unwrap().as_str(), "foo-1");
    let pred2_str = ComplexPattern::predicate("foo", "-", "\\(", "\\)", " ");
    let pred2 = Regex::new(&pred2_str).unwrap();
    assert_eq!(
        pred2.captures("(foo-1 foo-2)").unwrap().name("inner").unwrap().as_str(),
        "foo-1 foo-2"
    );
}

#[test]
fn token_parser_complex_pattern() {
    let pat = ComplexPattern::new("foo", "-", "\\[", "\\]", "[ ]+&[ ]+").unwrap();
    let found = pat.find("[foo-20]");
    assert!(found.is_some(), "found is not some");
    assert_eq!(found.unwrap(), ["FOO-20"]);
    assert!(pat.find("[foo ]").is_none(), "[foo ] isnt none");
    assert_eq!(pat.find("[foo-9 & foo-10]").unwrap(), ["FOO-9", "FOO-10"]);
    let pat2 = ComplexPattern::new("hello", "-", "[(]", "[)]", "[ ]+").unwrap();
    assert_eq!(pat2.find("(hello-10 hello-2) YOLO").unwrap(), ["HELLO-10", "HELLO-2"]);
}

#[test]
fn token_parser() {
    let parser = TokenParser::new("foo").unwrap();
    let logs = "[foo-1] hello world
        (foo-2, foo-3) lorem ipsum
        foo-4 tisk tisk
        foo-5 foo-6 yep
        foo-7, foo-8 YERP";

    let jira_tokens = parser.parse(logs);

    let compare: Vec<String> = (1..9)
        .map(|n: u32| String::from("FOO-") + &n.to_string())
        .collect();
    assert_eq!(jira_tokens, compare);
}

#[test]
fn predicate_text_is_built_in_order() {
    assert_eq!(
        ComplexPattern::predicate("foo", "-", "\\[", "\\]", "[ ]+&[ ]+"),
        "^(?i)[ ]*\\[[ ]*(?P<inner>foo-[0-9]+([ ]+&[ ]+foo-[0-9]+)*)[ ]*\\]"
    );
}

#[test]
fn lone_identifier_same_token_in_every_notation() {
    let lines = ["[foo-7] fix", "(foo-7) fix", "(foo-7) fix", "foo-7 fix", "foo-7 fix"];
    let table = shapes();
    assert_eq!(table.len(), 5);
    for (shape, line) in table.iter().zip(lines.iter()) {
        let pat = ComplexPattern::new(
            "foo",
            shape.tag_separator,
            shape.open_tag,
            shape.close_tag,
            shape.multi_separator,
        )
        .unwrap();
        assert_eq!(pat.find(line).unwrap(), ["FOO-7"]);
    }
    let parser = TokenParser::new("foo").unwrap();
    for line in lines.iter() {
        assert_eq!(parser.parse(line), ["FOO-7"]);
    }
}

#[test]
fn group_of_two_gives_two_tokens_in_order() {
    let parser = TokenParser::new("foo").unwrap();
    assert_eq!(parser.parse("[FOO-9 & FOO-10]"), ["FOO-9", "FOO-10"]);
}

#[test]
fn tie_keeps_earlier_notation() {
    let table = shapes();
    let space = &table[1];
    let comma = &table[2];
    let p_space = ComplexPattern::new("foo", "-", space.open_tag, space.close_tag, space.multi_separator).unwrap();
    let p_comma = ComplexPattern::new("foo", "-", comma.open_tag, comma.close_tag, comma.multi_separator).unwrap();
    assert_eq!(p_space.find("(foo-3) lorem").unwrap(), ["FOO-3"]);
    assert_eq!(p_comma.find("(foo-3) lorem").unwrap(), ["FOO-3"]);
    let parser = TokenParser::new("foo").unwrap();
    assert_eq!(parser.parse("(foo-3) lorem"), ["FOO-3"]);
}

#[test]
fn longer_group_wins_over_earlier_notation() {
    let parser = TokenParser::new("foo").unwrap();
    // The space-joined bare notation reads only FOO-1 here; the comma-joined one reads both.
    assert_eq!(parser.parse("foo-1, foo-2 done"), ["FOO-1", "FOO-2"]);
    assert_eq!(parser.parse("foo-1 foo-2, foo-3"), ["FOO-1", "FOO-2"]);
}

#[test]
fn bracket_without_digits_gives_nothing() {
    let parser = TokenParser::new("foo").unwrap();
    assert!(parser.parse("[foo ]").is_empty());
    let pat = ComplexPattern::new("foo", "-", "\\[", "\\]", "[ ]+&[ ]+").unwrap();
    assert!(pat.find("[foo ]").is_none());
}

#[test]
fn tokens_are_upper_case_whatever_the_input() {
    let parser = TokenParser::new("foo").unwrap();
    for line in ["foo-1", "Foo-1", "FOO-1"].iter() {
        assert_eq!(parser.parse(line), ["FOO-1"]);
    }
    let parser2 = TokenParser::new("Foo").unwrap();
    assert_eq!(parser2.parse("foo-1"), ["FOO-1"]);
}

#[test]
fn multi_line_log_in_line_order() {
    let parser = TokenParser::new("foo").unwrap();
    let logs = "[foo-1] hello world\n(foo-2, foo-3) lorem ipsum\nfoo-4 tisk tisk\nfoo-5 foo-6 yep\nfoo-7, foo-8 YERP";
    assert_eq!(
        parser.parse(logs),
        ["FOO-1", "FOO-2", "FOO-3", "FOO-4", "FOO-5", "FOO-6", "FOO-7", "FOO-8"]
    );
}

#[test]
fn other_project_is_not_matched() {
    let parser = TokenParser::new("foo").unwrap();
    assert!(parser.parse("bar-12").is_empty());
    assert!(parser.parse("[bar-12] and foo-3").is_empty());
}

#[test]
fn crlf_blank_lines_and_repeats() {
    let parser = TokenParser::new("foo").unwrap();
    assert!(parser.parse("").is_empty());
    assert_eq!(
        parser.parse("foo-1 one\r\n\r\nno issue here\nfoo-1 again\n"),
        ["FOO-1", "FOO-1"]
    );
}

#[test]
fn leading_zeros_are_kept() {
    let parser = TokenParser::new("foo").unwrap();
    assert_eq!(parser.parse("foo-007 x"), ["FOO-007"]);
}

#[test]
fn segment_without_digit_is_skipped() {
    let pat = ComplexPattern::new("foo bar", "-", "", "", "[ ]+").unwrap();
    assert_eq!(pat.find("foo bar-1 x").unwrap(), ["FOO BAR-1"]);
}

#[test]
fn bad_project_id_is_an_error() {
    let err = ComplexPattern::new("foo(", "-", "", "", "[ ]+").err().unwrap();
    assert_eq!(err.pattern, ComplexPattern::predicate("foo(", "-", "", "", "[ ]+"));
    let err2 = TokenParser::new("foo(").err().unwrap();
    assert_eq!(err2.pattern, ComplexPattern::predicate("foo(", "-", "\\[", "\\]", "[ ]+&[ ]+"));
}

#[test]
fn bad_splitter_is_an_error() {
    let err = ComplexPattern::new("foo", "-", "", "", ")(").err().unwrap();
    assert_eq!(err.pattern, ")(");
}

#[test]
fn text_after_the_group_is_ignored() {
    let parser = TokenParser::new("foo").unwrap();
    assert_eq!(parser.parse("foo-4 fixes 2 bugs"), ["FOO-4"]);
    let pat = ComplexPattern::new("foo", "-", "", "", "[ ]+").unwrap();
    assert_eq!(pat.find("foo-1 release 2").unwrap(), ["FOO-1"]);
}
