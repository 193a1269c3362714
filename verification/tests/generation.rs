use klex::emitter::{emit_matchers, is_context_neutral, rule_fragment, rule_order, Tier};
use klex::generator::{declare_kinds, generate_from_template, name_kinds, register_patterns};
use klex::matching::{
    anchor, char_string, generate_pattern_match_code, pattern_to_regex, push_quoted, quote,
    requires_engine, Quoting,
};
use klex::pattern::parse_pattern;
use klex::{generate_lexer, parse_spec, LexerRule, LexerSpec, RulePattern};

fn pattern(text: &str) -> RulePattern {
    parse_pattern(text).expect("every text writes a pattern")
}

fn parsed(section: &str) -> LexerSpec {
    parse_spec(&format!("%%\n{}\n%%", section)).expect("parses")
}

fn position(text: &str, part: &str) -> usize {
    match text.find(part) {
        Some(at) => at,
        None => panic!("{:?} is missing in:\n{}", part, text),
    }
}

#[test]
fn literal_text_is_escaped_for_the_engine() {
    assert_eq!(pattern_to_regex(&RulePattern::CharLiteral('+')), "\\+");
    assert_eq!(pattern_to_regex(&RulePattern::CharLiteral('a')), "a");
    assert_eq!(pattern_to_regex(&RulePattern::EscapedChar('.')), "\\.");
    assert_eq!(pattern_to_regex(&RulePattern::EscapedChar('\n')), "\n");
    assert_eq!(pattern_to_regex(&RulePattern::StringLiteral("a.b".to_string())), "a\\.b");
    assert_eq!(
        pattern_to_regex(&RulePattern::StringLiteral(
            "\\.+*?()|[]{}^$#&-~ %/!\"e".to_string()
        )),
        "\\\\\\.\\+\\*\\?\\(\\)\\|\\[\\]\\{\\}\\^\\$\\#\\&\\-\\~ %/!\"e"
    );
    assert_eq!(pattern_to_regex(&RulePattern::StringLiteral(String::new())), "");
}

#[test]
fn engine_text_is_kept_as_it_is() {
    assert_eq!(pattern_to_regex(&RulePattern::Regex("a+|b".to_string())), "a+|b");
    assert_eq!(pattern_to_regex(&RulePattern::CharSet("[abc]+".to_string())), "[abc]+");
}

#[test]
fn ranges_and_any_character_have_engine_patterns() {
    assert_eq!(pattern_to_regex(&RulePattern::CharRangeMatch1('a', 'z')), "[a-z]+");
    assert_eq!(pattern_to_regex(&RulePattern::CharRangeMatch0('0', '9')), "[0-9]*");
    assert_eq!(pattern_to_regex(&RulePattern::AnyChar), ".");
    assert_eq!(pattern_to_regex(&RulePattern::AnyCharPlus), ".+");
}

#[test]
fn choice_joins_its_alternatives_with_bars() {
    assert_eq!(pattern_to_regex(&pattern("(\"a.b\" | [0-9]+ | 'x' | /y*/)")), "(a\\.b|[0-9]+|x|y*)");
    assert_eq!(pattern_to_regex(&RulePattern::Choice(vec![])), "()");
    assert_eq!(pattern_to_regex(&RulePattern::Choice(vec![RulePattern::AnyChar])), "(.)");
    let nested = RulePattern::Choice(vec![
        RulePattern::Choice(vec![RulePattern::CharLiteral('a'), RulePattern::CharLiteral('|')]),
        RulePattern::AnyCharPlus,
    ]);
    assert_eq!(pattern_to_regex(&nested), "((a|\\|)|.+)");
}

#[test]
fn direct_comparison_is_chosen_for_fixed_text_and_ranges_with_plus() {
    for text in ["'x'", "\\n", "\"abc\"", "?", "[a-z]+"] {
        assert!(!requires_engine(&pattern(text)), "{}", text);
        assert!(!generate_pattern_match_code(&pattern(text), 0).1, "{}", text);
    }
}

#[test]
fn engine_is_chosen_for_the_other_patterns() {
    for text in ["/a+/", "a+", "[abc]+", "(a|b)", "[a-z]*", "?+"] {
        assert!(requires_engine(&pattern(text)), "{}", text);
        let (code, needs_engine) = generate_pattern_match_code(&pattern(text), 12);
        assert!(needs_engine, "{}", text);
        assert_eq!(code, "self.match_cached_pattern(remaining, 12)");
    }
}

#[test]
fn character_is_compared_with_the_first_character() {
    let expected = |c: &str| {
        format!(
            "if remaining.starts_with('{}') {{\n            Some(remaining.chars().next().unwrap().to_string())\n        }} else {{\n            None\n        }}",
            c
        )
    };
    let code = |p: RulePattern| generate_pattern_match_code(&p, 3).0;
    assert_eq!(code(RulePattern::CharLiteral('x')), expected("x"));
    assert_eq!(code(RulePattern::EscapedChar('+')), expected("+"));
    assert_eq!(code(RulePattern::EscapedChar('\n')), expected("\\n"));
    assert_eq!(code(RulePattern::EscapedChar('\t')), expected("\\t"));
    assert_eq!(code(RulePattern::EscapedChar('\r')), expected("\\r"));
    assert_eq!(code(RulePattern::EscapedChar('\\')), expected("\\\\"));
    assert_eq!(code(RulePattern::CharLiteral('\'')), expected("\\'"));
    assert_eq!(code(RulePattern::CharLiteral('"')), expected("\""));
}

#[test]
fn string_is_compared_with_the_start_of_the_input() {
    let (code, _) =
        generate_pattern_match_code(&RulePattern::StringLiteral("a\"b\\c\n\t\r'".to_string()), 3);
    assert_eq!(
        code,
        "if remaining.starts_with(\"a\\\"b\\\\c\\n\\t\\r'\") {\n            Some(\"a\\\"b\\\\c\\n\\t\\r'\".to_string())\n        } else {\n            None\n        }"
    );
}

#[test]
fn any_character_but_a_line_feed_is_taken() {
    let (code, _) = generate_pattern_match_code(&RulePattern::AnyChar, 3);
    assert_eq!(
        code,
        "if let Some(ch) = remaining.chars().next() {\n            if ch != '\\n' {\n                Some(ch.to_string())\n            } else {\n                None\n            }\n        } else {\n            None\n        }"
    );
}

#[test]
fn range_with_plus_is_scanned_and_needs_one_character() {
    let (code, _) = generate_pattern_match_code(&RulePattern::CharRangeMatch1('0', '9'), 3);
    assert_eq!(
        code,
        "{\n            let mut matched = String::new();\n            let mut chars = remaining.chars();\n            while let Some(ch) = chars.next() {\n                if ch >= '0' && ch <= '9' {\n                    matched.push(ch);\n                } else {\n                    break;\n                }\n            }\n            if !matched.is_empty() {\n                Some(matched)\n            } else {\n                None\n            }\n        }"
    );
}

#[test]
fn text_is_quoted_for_its_place() {
    let text = "a\nb\tc\rd\\e'f\"g";
    assert_eq!(quote(Quoting::Comment, text), "a\\nb\\tc\\rd\\e'f\"g");
    assert_eq!(quote(Quoting::Character, text), "a\\nb\\tc\\rd\\\\e\\'f\"g");
    assert_eq!(quote(Quoting::Text, text), "a\\nb\\tc\\rd\\\\e'f\\\"g");
    assert_eq!(quote(Quoting::Pattern, text), "a\nb\tc\rd\\\\e'f\\\"g");
    assert_eq!(quote(Quoting::Text, ""), "");
    let mut out = String::from(">");
    push_quoted(&mut out, Quoting::Character, '\'');
    push_quoted(&mut out, Quoting::Character, 'x');
    assert_eq!(out, ">\\'x");
    assert_eq!(char_string('é'), "é");
}

#[test]
fn tiers_go_by_context_then_action() {
    let spec = parsed("\"a\" -> A\n%A \"b\" -> AB\n\"c\" -> { None }");
    assert_eq!(spec.rules[0].tier(), Tier::Plain);
    assert_eq!(spec.rules[1].tier(), Tier::Context);
    assert_eq!(spec.rules[2].tier(), Tier::Action);
    let mut both = LexerRule::new_with_context(
        RulePattern::AnyChar,
        0,
        "X".to_string(),
        "A".to_string(),
    );
    both.action_code = Some("None".to_string());
    assert_eq!(both.tier(), Tier::Context);
}

#[test]
fn rules_are_tried_tier_by_tier_in_the_order_of_declaration() {
    let spec = parsed(
        "\"one\" -> ONE\n\"two\" -> { None }\n%ONE \"three\" -> THREE\n\"four\" -> FOUR\n%ONE \"five\" -> FIVE\n\"six\" -> { None }",
    );
    assert_eq!(rule_order(&spec.rules), vec![2, 4, 1, 5, 0, 3]);
    assert_eq!(rule_order(&[]), Vec::<usize>::new());
    let code = emit_matchers(&spec.rules);
    let places: Vec<usize> = ["\"three\"", "\"five\"", "\"two\"", "\"six\"", "\"one\"", "\"four\""]
        .iter()
        .map(|text| position(&code, &format!("starts_with({})", text)))
        .collect();
    let mut sorted = places.clone();
    sorted.sort();
    assert_eq!(places, sorted);
}

#[test]
fn earlier_rule_is_tried_before_a_later_rule_that_matches_more() {
    let spec = parsed("\"ab\" -> X\n\"abc\" -> Y");
    assert_eq!(rule_order(&spec.rules), vec![0, 1]);
    let code = emit_matchers(&spec.rules);
    // both are compared directly, and X is tried first: on "abc" it takes "ab"
    let first = position(&code, "if remaining.starts_with(\"ab\") {\n            Some(\"ab\".to_string())");
    let second =
        position(&code, "if remaining.starts_with(\"abc\") {\n            Some(\"abc\".to_string())");
    assert!(first < second);
    assert!(position(&code, "// Rule: ab -> X") < position(&code, "// Rule: abc -> Y"));
    assert_eq!(
        code,
        format!("{}{}", rule_fragment(&spec.rules[0], 0), rule_fragment(&spec.rules[1], 1))
    );
    let generated = generate_lexer(&spec, "order.klex");
    assert!(position(&generated, "TokenKind::X,\n") < position(&generated, "TokenKind::Y,\n"));
}

#[test]
fn white_space_keeps_the_context_for_a_context_rule() {
    let spec = parsed("\"a\" -> A\n%A \"b\" -> AB\n\" \" -> Whitespace");
    let a = rule_fragment(&spec.rules[0], 0);
    let ab = rule_fragment(&spec.rules[1], 1);
    let space = rule_fragment(&spec.rules[2], 2);
    // "a" sets the context, " " leaves it, so "b" is still tried behind "a "
    assert!(a.contains("self.last_token_kind = Some(token.kind.clone());"));
    assert!(space.contains("// Whitespace tokens don't update context;"));
    assert!(!space.contains("self.last_token_kind"));
    assert!(ab.contains("if self.last_token_kind == Some(TokenKind::A) {"));
    assert!(ab.contains("self.last_token_kind = Some(token.kind.clone());"));
    assert!(ab.contains("return Some(token);"));
    let code = emit_matchers(&spec.rules);
    assert_eq!(code, format!("{}{}{}", ab, a, space));
}

#[test]
fn four_names_keep_the_context() {
    for name in ["WHITESPACE", "Whitespace", "NEWLINE", "Newline"] {
        assert!(is_context_neutral(&name.to_string()), "{}", name);
    }
    for name in ["whitespace", "newline", "SPACE", "", "Whitespace ", "NUMBER"] {
        assert!(!is_context_neutral(&name.to_string()), "{}", name);
    }
}

#[test]
fn plain_fragment_is_written_in_full() {
    let rule = LexerRule::new(RulePattern::Regex("a+".to_string()), 0, "AS".to_string());
    assert_eq!(
        rule_fragment(&rule, 4),
        "        // Rule: a+ -> AS\n        {\n            let matched_opt = {self.match_cached_pattern(remaining, 4)};\n            if let Some(matched) = matched_opt {\n                let token = Token::new(\n                    TokenKind::AS,\n                    matched.clone(),\n                    self.pos,\n                    start_row,\n                    start_col,\n                    matched.len(),\n                    indent,\n                );\n                self.advance(&matched);\n                self.last_token_kind = Some(token.kind.clone());\n                return Some(token);\n            }\n        }\n\n"
    );
}

#[test]
fn context_fragment_is_written_in_full() {
    let rule = LexerRule::new_with_context(
        RulePattern::Regex("a\nb".to_string()),
        1,
        "AB".to_string(),
        "A".to_string(),
    );
    assert_eq!(
        rule_fragment(&rule, 1),
        "        // Context-dependent rule: a\\nb -> AB (after A)\n        if self.last_token_kind == Some(TokenKind::A) {\n            let matched_opt = {self.match_cached_pattern(remaining, 1)};\n            if let Some(matched) = matched_opt {\n                let token = Token::new(\n                    TokenKind::AB,\n                    matched.clone(),\n                    self.pos,\n                    start_row,\n                    start_col,\n                    matched.len(),\n                    indent,\n                );\n                self.advance(&matched);\n                self.last_token_kind = Some(token.kind.clone());\n                return Some(token);\n            }\n        }\n\n"
    );
}

#[test]
fn action_fragment_is_written_in_full() {
    let rule = LexerRule::new_with_action(RulePattern::AnyCharPlus, "None".to_string());
    assert_eq!(
        rule_fragment(&rule, 0),
        "        // Action rule: .+ -> { None }\n        {\n            let matched_opt = {self.match_cached_pattern(remaining, 0)};\n            if let Some(matched) = matched_opt {\n                let matched_str = matched.clone();\n                // Create token for action code to use\n                let test_t = Token::new(\n                    TokenKind::Unknown,\n                    matched_str.clone(),\n                    self.pos,\n                    start_row,\n                    start_col,\n                    matched_str.len(),\n                    indent,\n                );\n                self.advance(&matched_str);\n                // Execute action code with available variables\n                let action_result: Option<Token> = {\n                    None\n                };\n                if let Some(token) = action_result {\n                    self.last_token_kind = Some(token.kind.clone());\n                    return Some(token);\n                } else {\n                    // Continue to next iteration if no token was returned from action\n                    return self.next_token();\n                }\n            }\n        }\n\n"
    );
}

#[test]
fn patterns_that_need_the_engine_are_compiled_once_each() {
    let spec = parsed("[0-9]+ -> NUMBER\n[a-zA-Z_][a-zA-Z0-9_]* -> IDENTIFIER\n/\"\\d+\"/ -> QUOTED");
    assert_eq!(
        register_patterns(&spec.rules),
        "        // Pre-compile patterns that require regex\n        regex_cache.insert(1, Regex::new(\"^[a-zA-Z_][a-zA-Z0-9_]*\").unwrap());\n        regex_cache.insert(2, Regex::new(\"^\\\"\\\\d+\\\"\").unwrap());\n        "
    );
    assert_eq!(
        register_patterns(&[]),
        "        // Pre-compile patterns that require regex\n        "
    );
}

#[test]
fn token_kinds_are_declared_with_the_pattern_of_their_first_rule() {
    let spec = parsed("[0-9]+ -> NUMBER\n\"\\n\" -> NL\n\"x\" -> NUMBER");
    let kinds = vec!["NUMBER".to_string(), "FOO".to_string(), "NL".to_string()];
    assert_eq!(
        declare_kinds(&spec.rules, &kinds),
        "\tNUMBER, // [0-9]+\n\tFOO, // Custom token\n\tNL, // \\\\n\n"
    );
    assert_eq!(declare_kinds(&spec.rules, &vec![]), "");
}

#[test]
fn naming_method_has_an_arm_for_each_kind() {
    let kinds = vec!["NUMBER".to_string(), "FOO".to_string()];
    assert_eq!(
        name_kinds(&kinds),
        "\t/// Returns a string representation of the token kind for debugging purposes.\n\t///\n\t/// # Returns\n\t///\n\t/// A human-readable string representation of the token kind\n\tpub fn to_string(&self) -> String {\n\t\tmatch self.kind {\n\t\t\tTokenKind::NUMBER => \"NUMBER\".to_string(),\n\t\t\tTokenKind::FOO => \"FOO\".to_string(),\n\t\t\tTokenKind::Unknown => \"UNKNOWN\".to_string(),\n\t\t\tTokenKind::Eof => \"EOF\".to_string(),\n\t\t}\n\t}"
    );
}

#[test]
fn template_places_are_filled() {
    let spec = parse_spec("use a;\n%%\n'x' -> X\n%%\nfn f() {}").expect("parses");
    let template = "// This file is auto-generated.\n//----<GENERATED_BY>----\n[//----<TOKEN_KIND>----]\n[//----<REG_EX_CODE>----]\n[//----<TO_STRING_METHOD>----]\n//----<GENERATED_BY>----\n";
    let generated = generate_from_template(template, &spec, "x.klex");
    let expected = format!(
        "// This file is auto-generated.\nuse a;\n\n\n// Generated from: x.klex\n[\tX, // x\n]\n[        // Pre-compile patterns that require regex\n        ]\n[{}]\n// Generated from: x.klex\n\nfn f() {{}}\n",
        name_kinds(&vec!["X".to_string()])
    );
    assert_eq!(generated, expected);
}

#[test]
fn template_without_places_is_kept() {
    let spec = parsed("'x' -> X");
    assert_eq!(generate_from_template("nothing to fill", &spec, "x.klex"), "nothing to fill");
    assert_eq!(generate_from_template("", &LexerSpec::new(), ""), "");
}

#[test]
fn places_in_prefix_code_are_filled_too() {
    let spec = parse_spec("//----<GENERATED_BY>----\n%%\n%%\n//----<GENERATED_BY>----").expect("parses");
    let generated =
        generate_from_template("// This file is auto-generated.|", &spec, "s");
    assert_eq!(
        generated,
        "// This file is auto-generated.\n// Generated from: s\n\n|\n//----<GENERATED_BY>----\n"
    );
}

#[test]
fn two_plain_rules_give_two_plain_fragments_in_order() {
    let spec = parse_spec(
        "\n%%\n[0-9]+ -> NUMBER\n[a-zA-Z_][a-zA-Z0-9_]* -> IDENTIFIER\n%%\n",
    )
    .expect("parses");
    assert_eq!(spec.rules[0].kind, 0);
    assert_eq!(spec.rules[1].kind, 1);
    let generated = generate_lexer(&spec, "example.klex");
    assert!(!generated.contains("// Context-dependent rule:"));
    assert!(!generated.contains("// Action rule:"));
    let number = position(&generated, "        // Rule: [0-9]+ -> NUMBER\n");
    let identifier = position(&generated, "        // Rule: [a-zA-Z_][a-zA-Z0-9_]* -> IDENTIFIER\n");
    assert!(number < identifier);
    assert_eq!(generated.matches("        // Rule: ").count(), 2);
    assert!(generated.contains("// Generated from: example.klex"));
    assert!(generated.contains("\tNUMBER, // [0-9]+\n\tIDENTIFIER, // [a-zA-Z_][a-zA-Z0-9_]*\n"));
    assert!(generated.contains(
        "regex_cache.insert(1, Regex::new(\"^[a-zA-Z_][a-zA-Z0-9_]*\").unwrap());"
    ));
    assert!(generated.contains("{self.match_cached_pattern(remaining, 1)}"));
    assert!(!generated.contains("regex_cache.insert(0,"));
    assert_eq!(generated.matches("regex_cache.insert(").count(), 1);
    assert!(!generated.contains("//----<"));
}

#[test]
fn prefix_code_follows_the_banner_and_suffix_code_ends_the_source() {
    let spec = parse_spec("use std::fmt;\n%%\n'x' -> X\n%%\nfn main() {}\n").expect("parses");
    let generated = generate_lexer(&spec, "p.klex");
    assert!(generated.starts_with("// This file is auto-generated.\nuse std::fmt;\n\n\n// Generated from: p.klex\n"));
    assert!(generated.ends_with("}\n\nfn main() {}\n"));
    let bare = generate_lexer(&parsed("'x' -> X"), "p.klex");
    assert!(bare.starts_with("// This file is auto-generated.\n// Generated from: p.klex\n"));
    assert!(bare.ends_with("}\n"));
    assert!(!bare.ends_with("}\n\n"));
}

#[test]
fn rules_of_one_name_keep_their_own_patterns() {
    let spec = parse_spec("\n%%\n/a+/ -> T\n/b+/ -> T\n%%\n").expect("parses");
    assert_eq!(
        register_patterns(&spec.rules),
        "        // Pre-compile patterns that require regex\n        regex_cache.insert(0, Regex::new(\"^a+\").unwrap());\n        regex_cache.insert(1, Regex::new(\"^b+\").unwrap());\n        "
    );
    let first = rule_fragment(&spec.rules[0], 0);
    let second = rule_fragment(&spec.rules[1], 1);
    assert!(first.contains("// Rule: a+ -> T\n"));
    assert!(first.contains("let matched_opt = {self.match_cached_pattern(remaining, 0)};"));
    assert!(second.contains("// Rule: b+ -> T\n"));
    assert!(second.contains("let matched_opt = {self.match_cached_pattern(remaining, 1)};"));
    let generated = generate_lexer(&spec, "t.klex");
    assert_eq!(generated.matches("regex_cache.insert(").count(), 2);
    assert!(position(&generated, "remaining, 0)") < position(&generated, "remaining, 1)"));
    assert_eq!(generated.matches("\tT, // a+\n").count(), 1);
}

#[test]
fn action_rule_with_an_engine_pattern_has_a_key_of_its_own() {
    let spec = parse_spec("\n%%\n[0-9]* -> { None }\n\"x\" -> X\n/y+/ -> { None }\n%%\n")
        .expect("parses");
    assert_eq!(
        register_patterns(&spec.rules),
        "        // Pre-compile patterns that require regex\n        regex_cache.insert(0, Regex::new(\"^[0-9]*\").unwrap());\n        regex_cache.insert(2, Regex::new(\"^y+\").unwrap());\n        "
    );
    let fragment = rule_fragment(&spec.rules[0], 0);
    assert!(fragment.contains("let matched_opt = {self.match_cached_pattern(remaining, 0)};"));
    let generated = generate_lexer(&spec, "a.klex");
    assert!(generated.contains("{self.match_cached_pattern(remaining, 2)}"));
    assert!(!generated.contains("TokenKind:: "));
    assert!(!generated.contains("TokenKind::)"));
    assert!(!generated.contains("TokenKind::,"));
}

#[test]
fn key_of_a_rule_is_its_position_whatever_its_number() {
    let rules = vec![
        LexerRule::new(RulePattern::Regex("a".to_string()), 7, "A".to_string()),
        LexerRule::new(RulePattern::Regex("b".to_string()), 7, "B".to_string()),
    ];
    assert_eq!(
        register_patterns(&rules),
        "        // Pre-compile patterns that require regex\n        regex_cache.insert(0, Regex::new(\"^a\").unwrap());\n        regex_cache.insert(1, Regex::new(\"^b\").unwrap());\n        "
    );
    let code = emit_matchers(&rules);
    assert!(position(&code, "remaining, 0)") < position(&code, "remaining, 1)"));
}

#[test]
fn pattern_with_a_bar_is_anchored_as_a_whole() {
    assert_eq!(anchor("[a-z]*"), "^[a-z]*");
    assert_eq!(anchor(""), "^");
    assert_eq!(anchor("a|b"), "^(?:a|b)");
    assert_eq!(anchor("(a|b)"), "^(?:(a|b))");
    let spec = parse_spec("\n%%\na|b -> AB\n(\"c\" | /d+/) -> CD\n[a-z]* -> LOWER\n%%\n").expect("parses");
    assert_eq!(
        register_patterns(&spec.rules),
        "        // Pre-compile patterns that require regex\n        regex_cache.insert(0, Regex::new(\"^(?:a|b)\").unwrap());\n        regex_cache.insert(1, Regex::new(\"^(?:(c|d+))\").unwrap());\n        regex_cache.insert(2, Regex::new(\"^[a-z]*\").unwrap());\n        "
    );
}

#[test]
fn range_ends_stand_for_themselves_in_code_and_in_the_engine() {
    assert_eq!(pattern_to_regex(&RulePattern::CharRangeMatch0('[', ']')), "[\\[-\\]]*");
    assert_eq!(pattern_to_regex(&RulePattern::CharRangeMatch1('!', '-')), "[!-\\-]+");
    assert_eq!(pattern_to_regex(&RulePattern::CharRangeMatch0('\\', '^')), "[\\\\-\\^]*");
    let (code, _) = generate_pattern_match_code(&RulePattern::CharRangeMatch1('\'', '\\'), 0);
    assert!(code.contains("if ch >= '\\'' && ch <= '\\\\' {"));
    let (code, _) = generate_pattern_match_code(&RulePattern::CharRangeMatch1('\t', '\r'), 0);
    assert!(code.contains("if ch >= '\\t' && ch <= '\\r' {"));
}
