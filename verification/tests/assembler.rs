use klex::parser::split_sections;
use klex::rules::{check_contexts, find_rule};
use klex::text::{append_decimal, chars_of};
use klex::{parse_spec, LexerRule, LexerSpec, ParseError, ParseErrorKind, RulePattern};

fn rules_of(section: &str) -> Result<LexerSpec, ParseError> {
    parse_spec(&format!("%%\n{}\n%%", section))
}

fn names(spec: &LexerSpec) -> Vec<String> {
    spec.rules.iter().map(|rule| rule.name.clone()).collect()
}

#[test]
fn document_without_delimiter_is_rejected() {
    let error = parse_spec("[0-9]+ -> NUMBER").unwrap_err();
    assert_eq!(error.kind, ParseErrorKind::SectionCount);
    assert_eq!(error.message, "Input must have exactly 3 sections separated by %%");
}

#[test]
fn document_with_one_delimiter_is_rejected() {
    assert_eq!(parse_spec("a\n%%\nb").unwrap_err().kind, ParseErrorKind::SectionCount);
    assert_eq!(parse_spec("%%").unwrap_err().kind, ParseErrorKind::SectionCount);
    // three percent signs hold one delimiter
    assert_eq!(parse_spec("a%%%b").unwrap_err().kind, ParseErrorKind::SectionCount);
}

#[test]
fn document_with_three_delimiters_is_rejected() {
    assert_eq!(
        parse_spec("a\n%%\n\"x\" -> X\n%%\nb\n%%\nc").unwrap_err().kind,
        ParseErrorKind::SectionCount
    );
    assert_eq!(parse_spec("%%%%%%").unwrap_err().kind, ParseErrorKind::SectionCount);
    assert_eq!(parse_spec("%%%%%%%%").unwrap_err().kind, ParseErrorKind::SectionCount);
}

#[test]
fn section_count_comes_before_the_rules() {
    // the bad context rule is never read
    let error = parse_spec("%%\n%MISSING \"a\" -> A\n%%\n%%").unwrap_err();
    assert_eq!(error.kind, ParseErrorKind::SectionCount);
}

#[test]
fn document_with_two_delimiters_is_read() {
    let spec = parse_spec("%%%%").expect("three empty sections");
    assert_eq!(spec.prefix_code, "");
    assert_eq!(spec.suffix_code, "");
    assert!(spec.rules.is_empty());
    assert!(spec.custom_tokens.is_empty());
    // five percent signs hold two delimiters and a suffix
    let spec = parse_spec("%%%%%").expect("three sections");
    assert_eq!(spec.suffix_code, "%");
}

#[test]
fn sections_are_the_texts_between_the_delimiters() {
    let doc = chars_of("ab%%cd%%ef");
    let (prefix, rules, suffix) = split_sections(&doc).expect("three sections");
    assert_eq!(prefix, &['a', 'b']);
    assert_eq!(rules, &['c', 'd']);
    assert_eq!(suffix, &['e', 'f']);
    assert!(split_sections(&chars_of("ab%%cd")).is_none());
    assert!(split_sections(&chars_of("a%%b%%c%%d")).is_none());
}

#[test]
fn prefix_and_suffix_code_are_trimmed() {
    let spec = parse_spec("\n  use std::fmt;\n\n%%\n%%\n\n fn main() {}\n ").expect("parses");
    assert_eq!(spec.prefix_code, "use std::fmt;");
    assert_eq!(spec.suffix_code, "fn main() {}");
}

#[test]
fn two_named_rules_get_the_kinds_0_and_1() {
    let spec = parse_spec(
        "use std::collections::HashMap;\n%%\n[0-9]+ -> NUMBER\n[a-zA-Z_][a-zA-Z0-9_]* -> IDENTIFIER\n%%\n// end\n",
    )
    .expect("parses");
    assert_eq!(spec.rules.len(), 2);
    assert_eq!(spec.rules[0].kind, 0);
    assert_eq!(spec.rules[0].name, "NUMBER");
    assert!(matches!(spec.rules[0].pattern, RulePattern::CharRangeMatch1('0', '9')));
    assert_eq!(spec.rules[1].kind, 1);
    assert_eq!(spec.rules[1].name, "IDENTIFIER");
    match &spec.rules[1].pattern {
        RulePattern::CharSet(text) => assert_eq!(text, "[a-zA-Z_][a-zA-Z0-9_]*"),
        other => panic!("expected a character set, got {:?}", other),
    }
    assert!(spec.rules.iter().all(|rule| rule.context_token.is_none()));
    assert!(spec.rules.iter().all(|rule| rule.action_code.is_none()));
}

#[test]
fn kinds_are_dense_over_all_forms_of_rule() {
    let spec = rules_of(
        "// a comment\n\
         \"a\" -> A\n\
         \n\
         %token EXTRA, MORE\n\
         \"skip\" -> { None }\n\
         \t  \n\
         %A \"b\" -> AB\n\
         // another comment\n\
         [0-9]+\n\
         ' ' -> _",
    )
    .expect("parses");
    let kinds: Vec<usize> = spec.rules.iter().map(|rule| rule.kind).collect();
    assert_eq!(kinds, vec![0, 1, 2, 3, 4]);
    assert_eq!(names(&spec), vec!["A", "", "AB", "TOKEN_3", "Whitespace"]);
    assert_eq!(spec.custom_tokens, vec!["EXTRA", "MORE"]);
}

#[test]
fn rule_without_a_name_is_named_by_its_number() {
    let mut section = String::new();
    for _ in 0..12 {
        section.push_str("[0-9]+\n");
    }
    let spec = rules_of(&section).expect("parses");
    assert_eq!(spec.rules.len(), 12);
    assert_eq!(spec.rules[0].name, "TOKEN_0");
    assert_eq!(spec.rules[9].name, "TOKEN_9");
    assert_eq!(spec.rules[10].name, "TOKEN_10");
    assert_eq!(spec.rules[11].name, "TOKEN_11");
    assert_eq!(spec.rules[11].kind, 11);
}

#[test]
fn numbers_are_written_in_decimal() {
    let mut text = String::from("n=");
    append_decimal(&mut text, 0);
    text.push(',');
    append_decimal(&mut text, 7);
    text.push(',');
    append_decimal(&mut text, 10);
    text.push(',');
    append_decimal(&mut text, 4096);
    text.push(',');
    append_decimal(&mut text, 1234567890);
    assert_eq!(text, "n=0,7,10,4096,1234567890");
}

#[test]
fn underscore_names_white_space() {
    let spec = rules_of("[ \\t]+ -> _\n\"_\" -> __\n\"x\" ->  _  ").expect("parses");
    assert_eq!(names(&spec), vec!["Whitespace", "__", "Whitespace"]);
}

#[test]
fn action_rule_holds_the_code_between_its_braces() {
    let spec = rules_of("\"//\" -> {  self.skip_line(); None  }\n\"x\" -> {}").expect("parses");
    assert_eq!(spec.rules[0].name, "");
    assert_eq!(spec.rules[0].action_code.as_deref(), Some("self.skip_line(); None"));
    assert_eq!(spec.rules[0].kind, 0);
    assert!(matches!(&spec.rules[0].pattern, RulePattern::StringLiteral(text) if text == "//"));
    assert_eq!(spec.rules[1].action_code.as_deref(), Some(""));
    assert_eq!(spec.rules[1].kind, 1);
}

#[test]
fn lone_brace_is_a_name() {
    let spec = rules_of("\"x\" -> {\n\"y\" -> }\n\"z\" -> { a").expect("parses");
    assert_eq!(names(&spec), vec!["{", "}", "{ a"]);
    assert!(spec.rules.iter().all(|rule| rule.action_code.is_none()));
}

#[test]
fn rule_is_divided_at_its_first_arrow() {
    let spec = rules_of("\"->\" -> ARROW").expect("parses");
    // the first arrow stands between the quotes
    assert_eq!(spec.rules[0].name, "\" -> ARROW");
    assert!(matches!(&spec.rules[0].pattern, RulePattern::Regex(text) if text == "\""));
}

#[test]
fn rule_may_have_an_empty_name_or_pattern() {
    let spec = rules_of("\"x\" ->\n-> Y").expect("parses");
    assert_eq!(names(&spec), vec!["", "Y"]);
    assert!(matches!(&spec.rules[1].pattern, RulePattern::Regex(text) if text.is_empty()));
}

#[test]
fn token_declarations_take_commas_and_white_space() {
    let spec = rules_of("%token A, B  C,,D\t,E\n%token\n%token ,\n%tokenF G").expect("parses");
    assert_eq!(spec.custom_tokens, vec!["A", "B", "C", "D", "E", "F", "G"]);
    assert!(spec.rules.is_empty());
}

#[test]
fn token_declarations_take_no_kind() {
    let spec = rules_of("\"a\" -> A\n%token X\n\"b\" -> B").expect("parses");
    assert_eq!(spec.rules[0].kind, 0);
    assert_eq!(spec.rules[1].kind, 1);
    assert_eq!(spec.custom_tokens, vec!["X"]);
}

#[test]
fn context_rule_after_its_token_is_read() {
    let spec = rules_of("\"a\" -> A\n%A  \"b\"  ->  AB").expect("parses");
    assert_eq!(spec.rules.len(), 2);
    assert_eq!(spec.rules[1].name, "AB");
    assert_eq!(spec.rules[1].kind, 1);
    assert_eq!(spec.rules[1].context_token.as_deref(), Some("A"));
    assert!(spec.rules[1].action_code.is_none());
    assert!(matches!(&spec.rules[1].pattern, RulePattern::StringLiteral(text) if text == "b"));
}

#[test]
fn context_rule_declares_its_own_token() {
    let spec = rules_of("\"a\" -> A\n%A \"b\" -> AB\n%AB \"c\" -> ABC").expect("parses");
    assert_eq!(spec.rules[2].context_token.as_deref(), Some("AB"));
}

#[test]
fn context_rule_keeps_the_underscore() {
    let spec = rules_of("\"a\" -> A\n%A \"b\" -> _").expect("parses");
    assert_eq!(spec.rules[1].name, "_");
}

#[test]
fn unknown_context_is_an_error_that_names_token_and_line() {
    let error = rules_of("  %MISSING [0-9]+ -> NUMBER_AFTER_MISSING  ").unwrap_err();
    assert_eq!(error.kind, ParseErrorKind::UnknownContextToken);
    assert_eq!(
        error.message,
        "Unknown context token 'MISSING' in rule: %MISSING [0-9]+ -> NUMBER_AFTER_MISSING"
    );
    assert_eq!(
        error.to_string(),
        "Parse error: Unknown context token 'MISSING' in rule: %MISSING [0-9]+ -> NUMBER_AFTER_MISSING"
    );
}

#[test]
fn forward_reference_to_a_context_is_an_error() {
    let error = rules_of("%A \"b\" -> AB\n\"a\" -> A").unwrap_err();
    assert_eq!(error.kind, ParseErrorKind::UnknownContextToken);
    assert_eq!(error.message, "Unknown context token 'A' in rule: %A \"b\" -> AB");
}

#[test]
fn context_rule_cannot_name_itself() {
    let error = rules_of("%AB \"b\" -> AB").unwrap_err();
    assert_eq!(error.kind, ParseErrorKind::UnknownContextToken);
}

#[test]
fn action_rule_declares_no_context() {
    // the action rule has no name, and the token declaration is no rule
    let error = rules_of("\"a\" -> { Some(A) }\n%token A\n%A \"b\" -> AB").unwrap_err();
    assert_eq!(error.kind, ParseErrorKind::UnknownContextToken);
}

#[test]
fn context_rule_without_arrow_is_malformed() {
    let error = rules_of("%A \"b\"").unwrap_err();
    assert_eq!(error.kind, ParseErrorKind::MalformedContextRule);
    assert_eq!(error.message, "Context rule must have -> operator: %A \"b\"");
}

#[test]
fn context_rule_without_pattern_is_malformed() {
    let error = rules_of("\"a\" -> A\n%A -> AB").unwrap_err();
    assert_eq!(error.kind, ParseErrorKind::MalformedContextRule);
    assert_eq!(error.message, "Invalid context rule format: %A -> AB");
    let error = rules_of("%A\t\"b\" -> AB").unwrap_err();
    assert_eq!(error.kind, ParseErrorKind::MalformedContextRule);
}

#[test]
fn first_bad_line_decides_the_error() {
    let error = rules_of("%A \"b\"\n%B \"c\" -> C").unwrap_err();
    assert_eq!(error.kind, ParseErrorKind::MalformedContextRule);
    let error = rules_of("%B \"c\" -> C\n%A \"b\"").unwrap_err();
    assert_eq!(error.kind, ParseErrorKind::UnknownContextToken);
}

#[test]
fn lines_may_end_with_carriage_return_and_line_feed() {
    let spec = parse_spec("a\r\n%%\r\n\"a\" -> A\r\n\r\n// c\r\n\"b\" -> B\r\n%%\r\nb\r\n")
        .expect("parses");
    assert_eq!(names(&spec), vec!["A", "B"]);
    assert_eq!(spec.prefix_code, "a");
    assert_eq!(spec.suffix_code, "b");
}

#[test]
fn rules_keep_the_order_of_their_lines() {
    let spec = rules_of("\"abc\" -> Y\n\"ab\" -> X\n\"a\" -> W").expect("parses");
    assert_eq!(names(&spec), vec!["Y", "X", "W"]);
}

#[test]
fn error_shows_its_message_behind_a_fixed_opening() {
    let error = ParseError::new("bad pattern: (".to_string());
    assert_eq!(error.kind, ParseErrorKind::PatternSyntax);
    assert_eq!(error.message, "bad pattern: (");
    assert_eq!(error.to_string(), "Parse error: bad pattern: (");
    let error = ParseError::of_kind(ParseErrorKind::SectionCount, "x".to_string());
    assert_eq!(error.kind, ParseErrorKind::SectionCount);
    assert_eq!(
        parse_spec("").unwrap_err().to_string(),
        "Parse error: Input must have exactly 3 sections separated by %%"
    );
}

#[test]
fn rule_constructors_fill_the_fields() {
    let rule = LexerRule::new(RulePattern::AnyChar, 3, "ANY".to_string());
    assert_eq!((rule.kind, rule.name.as_str()), (3, "ANY"));
    assert!(rule.context_token.is_none() && rule.action_code.is_none());
    let rule = LexerRule::new_with_context(
        RulePattern::CharLiteral('b'),
        4,
        "AB".to_string(),
        "A".to_string(),
    );
    assert_eq!((rule.kind, rule.name.as_str()), (4, "AB"));
    assert_eq!(rule.context_token.as_deref(), Some("A"));
    assert!(rule.action_code.is_none());
    let rule = LexerRule::new_with_action(RulePattern::AnyCharPlus, "None".to_string());
    assert_eq!((rule.kind, rule.name.as_str()), (0, ""));
    assert!(rule.context_token.is_none());
    assert_eq!(rule.action_code.as_deref(), Some("None"));
    assert!(matches!(rule.pattern, RulePattern::AnyCharPlus));
}

#[test]
fn new_specification_is_empty() {
    for spec in [LexerSpec::new(), LexerSpec::default()] {
        assert_eq!(spec.prefix_code, "");
        assert_eq!(spec.suffix_code, "");
        assert!(spec.rules.is_empty());
        assert!(spec.custom_tokens.is_empty());
    }
}

#[test]
fn rule_is_found_by_its_name() {
    let spec = rules_of("\"a\" -> A\n\"b\" -> B\n\"c\" -> A").expect("parses");
    assert_eq!(find_rule(&spec.rules, &"A".to_string()), Some(0));
    assert_eq!(find_rule(&spec.rules, &"B".to_string()), Some(1));
    assert_eq!(find_rule(&spec.rules, &"C".to_string()), None);
}

#[test]
fn contexts_of_a_parsed_specification_are_defined() {
    let spec = rules_of("\"a\" -> A\n%A \"b\" -> AB").expect("parses");
    assert!(check_contexts(&spec.rules));
    let mut spec = spec;
    spec.rules.push(LexerRule::new_with_context(
        RulePattern::AnyChar,
        2,
        "X".to_string(),
        "NOWHERE".to_string(),
    ));
    assert!(!check_contexts(&spec.rules));
}
