use klex::pattern::{
    find_top_bar, parentheses_pair_up, parse_pattern, read_endpoint, read_hex,
};
use klex::text::chars_of;
use klex::RulePattern;

fn parse(text: &str) -> RulePattern {
    parse_pattern(text).expect("every text writes a pattern")
}

fn shown(text: &str) -> String {
    format!("{:?}", parse(text))
}

#[test]
fn range_with_plus_is_a_range_not_a_set() {
    assert!(matches!(parse("[a-z]+"), RulePattern::CharRangeMatch1('a', 'z')));
}

#[test]
fn enumerated_characters_are_a_set() {
    match parse("[abc]+") {
        RulePattern::CharSet(text) => assert_eq!(text, "[abc]+"),
        other => panic!("expected a character set, got {:?}", other),
    }
}

#[test]
fn range_with_star_is_a_range_matched_any_number_of_times() {
    assert!(matches!(parse("[0-9]*"), RulePattern::CharRangeMatch0('0', '9')));
}

#[test]
fn range_without_quantifier_is_a_set() {
    assert_eq!(shown("[a-z]"), "CharSet(\"[a-z]\")");
    assert_eq!(shown("[a-z]?"), "CharSet(\"[a-z]?\")");
    assert_eq!(shown("[a-z]++"), "CharSet(\"[a-z]++\")");
}

#[test]
fn several_brackets_are_a_set() {
    assert_eq!(
        shown("[a-zA-Z_][a-zA-Z0-9_]*"),
        "CharSet(\"[a-zA-Z_][a-zA-Z0-9_]*\")"
    );
}

#[test]
fn range_ends_may_be_written_in_hexadecimal() {
    assert!(matches!(parse("[\\x41-\\x5A]+"), RulePattern::CharRangeMatch1('A', 'Z')));
    assert!(matches!(parse("[\\x4a-\\x4F]*"), RulePattern::CharRangeMatch0('J', 'O')));
    assert!(matches!(
        parse("[\\u{1F600}-\\u{1F64F}]+"),
        RulePattern::CharRangeMatch1('\u{1F600}', '\u{1F64F}')
    ));
    assert!(matches!(parse("[\\u{0041}-z]+"), RulePattern::CharRangeMatch1('A', 'z')));
    assert!(matches!(
        parse("[\\u{000000000000000041}-z]+"),
        RulePattern::CharRangeMatch1('A', 'z')
    ));
}

#[test]
fn range_ends_that_name_no_character_give_a_set() {
    assert!(matches!(parse("[\\u{D800}-\\u{DFFF}]+"), RulePattern::CharSet(_)));
    assert!(matches!(parse("[\\u{110000}-z]+"), RulePattern::CharSet(_)));
    assert!(matches!(parse("[\\u{FFFFFFFFFFFF}-z]+"), RulePattern::CharSet(_)));
    assert!(matches!(parse("[\\u{}-z]+"), RulePattern::CharSet(_)));
    assert!(matches!(parse("[\\u{12G}-z]+"), RulePattern::CharSet(_)));
    assert!(matches!(parse("[\\xZZ-z]+"), RulePattern::CharSet(_)));
    assert!(matches!(parse("[\\x4-z]+"), RulePattern::CharSet(_)));
    assert!(matches!(parse("[ab-z]+"), RulePattern::CharSet(_)));
    assert!(matches!(parse("[-z]+"), RulePattern::CharSet(_)));
    assert!(matches!(parse("[a-]+"), RulePattern::CharSet(_)));
}

#[test]
fn range_is_divided_at_its_first_dash() {
    assert!(matches!(parse("[+--]+"), RulePattern::CharRangeMatch1('+', '-')));
    assert!(matches!(parse("[a-b-c]+"), RulePattern::CharSet(_)));
}

#[test]
fn hexadecimal_numbers_are_read_digit_by_digit() {
    assert_eq!(read_hex(&chars_of("0")), Some(0));
    assert_eq!(read_hex(&chars_of("fF")), Some(255));
    assert_eq!(read_hex(&chars_of("10FFFF")), Some(0x10FFFF));
    assert_eq!(read_hex(&chars_of("110000")), Some(0x110000));
    assert_eq!(read_hex(&chars_of("FFFFFFFFFFFFFFFFFFFF")), Some(0x110000));
    assert_eq!(read_hex(&chars_of("")), None);
    assert_eq!(read_hex(&chars_of("12x")), None);
    assert_eq!(read_hex(&chars_of("+F")), None);
}

#[test]
fn range_end_is_a_character_or_an_escape() {
    assert_eq!(read_endpoint(&chars_of("a")), Some('a'));
    assert_eq!(read_endpoint(&chars_of("é")), Some('é'));
    assert_eq!(read_endpoint(&chars_of("\\x41")), Some('A'));
    assert_eq!(read_endpoint(&chars_of("\\xff")), Some('\u{FF}'));
    assert_eq!(read_endpoint(&chars_of("\\u{41}")), Some('A'));
    assert_eq!(read_endpoint(&chars_of("\\u{D7FF}")), Some('\u{D7FF}'));
    assert_eq!(read_endpoint(&chars_of("\\u{E000}")), Some('\u{E000}'));
    assert_eq!(read_endpoint(&chars_of("\\u{DFFF}")), None);
    assert_eq!(read_endpoint(&chars_of("\\u{10FFFF}")), Some('\u{10FFFF}'));
    assert_eq!(read_endpoint(&chars_of("\\u{110000}")), None);
    assert_eq!(read_endpoint(&chars_of("")), None);
    assert_eq!(read_endpoint(&chars_of("ab")), None);
    assert_eq!(read_endpoint(&chars_of("\\x+F")), None);
}

#[test]
fn question_marks_stand_for_any_character() {
    assert!(matches!(parse("?"), RulePattern::AnyChar));
    assert!(matches!(parse("?+"), RulePattern::AnyCharPlus));
    assert!(matches!(parse("  ?  "), RulePattern::AnyChar));
    assert!(matches!(parse("\t?+\n"), RulePattern::AnyCharPlus));
    assert_eq!(shown("??"), "Regex(\"??\")");
}

#[test]
fn backslash_and_one_character_is_an_escaped_character() {
    assert!(matches!(parse("\\n"), RulePattern::EscapedChar('\n')));
    assert!(matches!(parse("\\t"), RulePattern::EscapedChar('\t')));
    assert!(matches!(parse("\\r"), RulePattern::EscapedChar('\r')));
    assert!(matches!(parse("\\\\"), RulePattern::EscapedChar('\\')));
    assert!(matches!(parse("\\+"), RulePattern::EscapedChar('+')));
    assert!(matches!(parse("\\*"), RulePattern::EscapedChar('*')));
    assert!(matches!(parse("\\."), RulePattern::EscapedChar('.')));
    assert!(matches!(parse("\\-"), RulePattern::EscapedChar('-')));
    assert!(matches!(parse("\\q"), RulePattern::EscapedChar('q')));
    assert!(matches!(parse("\\é"), RulePattern::EscapedChar('é')));
}

#[test]
fn escape_comes_before_the_other_forms() {
    // two characters, the first a backslash: no string, no regex
    assert!(matches!(parse("\\\""), RulePattern::EscapedChar('"')));
    assert!(matches!(parse("\\/"), RulePattern::EscapedChar('/')));
    assert_eq!(shown("\\d+"), "Regex(\"\\\\d+\")");
}

#[test]
fn one_character_between_single_quotes_is_a_character() {
    assert!(matches!(parse("'x'"), RulePattern::CharLiteral('x')));
    assert!(matches!(parse("'''"), RulePattern::CharLiteral('\'')));
    assert!(matches!(parse("'\"'"), RulePattern::CharLiteral('"')));
    assert!(matches!(parse("'é'"), RulePattern::CharLiteral('é')));
    assert_eq!(shown("'xy'"), "Regex(\"'xy'\")");
    assert_eq!(shown("''"), "Regex(\"''\")");
    assert_eq!(shown("'"), "Regex(\"'\")");
}

#[test]
fn text_between_double_quotes_is_a_string_taken_as_it_is() {
    assert_eq!(shown("\"abc\""), "StringLiteral(\"abc\")");
    assert_eq!(shown("\"\""), "StringLiteral(\"\")");
    assert_eq!(shown("\"a\\nb\""), "StringLiteral(\"a\\\\nb\")");
    assert_eq!(shown("\" a \""), "StringLiteral(\" a \")");
    assert_eq!(shown("\""), "Regex(\"\\\"\")");
}

#[test]
fn text_between_slashes_is_an_engine_pattern() {
    assert_eq!(shown("/a+b/"), "Regex(\"a+b\")");
    assert_eq!(shown("//"), "Regex(\"\")");
    assert_eq!(shown("/"), "Regex(\"/\")");
}

#[test]
fn parentheses_with_a_bar_are_a_choice() {
    assert_eq!(shown("(a|b)"), "Choice([Regex(\"a\"), Regex(\"b\")])");
    assert_eq!(
        shown("(\"if\" | 'x' | [0-9]+ | ?)"),
        "Choice([StringLiteral(\"if\"), CharLiteral('x'), CharRangeMatch1('0', '9'), AnyChar])"
    );
    assert_eq!(shown("(a|)"), "Choice([Regex(\"a\"), Regex(\"\")])");
    assert_eq!(shown("(|)"), "Choice([Regex(\"\"), Regex(\"\")])");
}

#[test]
fn choice_is_divided_at_its_top_level_bars_only() {
    assert_eq!(
        shown("((a|b)|c)"),
        "Choice([Choice([Regex(\"a\"), Regex(\"b\")]), Regex(\"c\")])"
    );
    assert_eq!(
        shown("(a(b|c)d | [0-9]+ | (x(y|z)))"),
        "Choice([Regex(\"a(b|c)d\"), CharRangeMatch1('0', '9'), Regex(\"(x(y|z))\")])"
    );
    assert_eq!(shown("(a|(b)|c)"), "Choice([Regex(\"a\"), Regex(\"(b)\"), Regex(\"c\")])");
    assert_eq!(shown("(()|())"), "Choice([Regex(\"()\"), Regex(\"()\")])");
}

#[test]
fn nested_bars_make_no_choice() {
    assert_eq!(shown("((a|b))"), "Regex(\"((a|b))\")");
    assert_eq!(shown("(a(b|c))"), "Regex(\"(a(b|c))\")");
    assert_eq!(shown(" ((a|b)(c|d)) "), "Regex(\"((a|b)(c|d))\")");
    assert_eq!(shown("(((a|b)))"), "Regex(\"(((a|b)))\")");
}

#[test]
fn text_that_is_no_single_group_makes_no_choice() {
    // the first parenthesis is closed before the end: the text is not one
    // group, whatever bars it holds
    assert_eq!(shown("(a)|(b)"), "Regex(\"(a)|(b)\")");
    assert_eq!(shown("(a)b|c(d)"), "Regex(\"(a)b|c(d)\")");
    assert_eq!(shown("(a|b)(c|d)"), "Regex(\"(a|b)(c|d)\")");
    assert_eq!(shown("(a|b)c)"), "Regex(\"(a|b)c)\")");
    // a parenthesis is left open: the last one closes an inner one
    assert_eq!(shown("((a|b)"), "Regex(\"((a|b)\")");
    assert_eq!(shown("(a|(b)"), "Regex(\"(a|(b)\")");
}

#[test]
fn parentheses_pair_up_where_each_is_closed_in_turn() {
    for text in ["", "a|b", "(a)", "(a)(b)", "((a)|(b))c", "()()"] {
        assert!(parentheses_pair_up(&chars_of(text)), "{:?}", text);
    }
    for text in ["(", ")", ")(", "(a))", "((a)", "a)|(b"] {
        assert!(!parentheses_pair_up(&chars_of(text)), "{:?}", text);
    }
}

#[test]
fn top_level_bars_are_found_from_any_position() {
    let s = chars_of("a|(b|c)|d)|e");
    assert_eq!(find_top_bar(&s, 0), Some(1));
    assert_eq!(find_top_bar(&s, 1), Some(1));
    assert_eq!(find_top_bar(&s, 2), Some(7));
    assert_eq!(find_top_bar(&s, 3), Some(4));
    assert_eq!(find_top_bar(&s, 8), None);
    assert_eq!(find_top_bar(&s, 10), Some(10));
    assert_eq!(find_top_bar(&s, 12), None);
    assert_eq!(find_top_bar(&[], 0), None);
}

#[test]
fn parentheses_without_a_bar_fall_through() {
    assert_eq!(shown("(abc)"), "Regex(\"(abc)\")");
    assert_eq!(shown("()"), "Regex(\"()\")");
    assert_eq!(shown("("), "Regex(\"(\")");
    assert_eq!(shown(")"), "Regex(\")\")");
    assert_eq!(shown("(a|b"), "Regex(\"(a|b\")");
}

#[test]
fn any_other_text_is_an_engine_pattern() {
    assert_eq!(shown("abc"), "Regex(\"abc\")");
    assert_eq!(shown("  [0-9  "), "Regex(\"[0-9\")");
    assert_eq!(shown(""), "Regex(\"\")");
    assert_eq!(shown("   "), "Regex(\"\")");
    assert_eq!(shown("a|b"), "Regex(\"a|b\")");
}

#[test]
fn white_space_around_a_pattern_is_dropped() {
    assert_eq!(shown(" \t\"a b\"\u{3000}\u{a0}"), "StringLiteral(\"a b\")");
    assert!(matches!(parse("\n[a-z]+\r"), RulePattern::CharRangeMatch1('a', 'z')));
}

#[test]
fn pattern_clone_keeps_the_pattern() {
    let pattern = parse("(\"if\" | [a-z]* | /x+/)");
    assert_eq!(format!("{:?}", pattern.clone()), format!("{:?}", pattern));
}
