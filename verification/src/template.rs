//! The text into which the generated code is put, and the pieces of a
//! tokenizer whose token kinds are plain numbers.

use vstd::prelude::*;
use crate::matching::{anchor, anchored, pattern_to_regex, regex_text};
use crate::rules::{rule_views, LexerRule, RuleView};
use crate::text::{append_decimal, decimal};

verus! {

/// The template of a tokenizer. It is text with places for the generated
/// parts; nothing of it is read but those places.
pub const LEXER_TEMPLATE: &'static str =
"// This file is auto-generated.\n\
//----<GENERATED_BY>----\n\
\n\
use regex::Regex;\n\
\n\
/// The kinds of token that the lexer produces.\n\
#[allow(non_camel_case_types)]\n\
#[derive(Debug, Clone, Copy, PartialEq, Eq, Hash)]\n\
pub enum TokenKind {\n\
//----<TOKEN_KIND>----\n\
\tUnknown, // Text that no rule matches\n\
\tEof, // The end of the input\n\
}\n\
\n\
/// One token of the input.\n\
#[derive(Debug, Clone, PartialEq)]\n\
pub struct Token {\n\
\t/// The kind of the token\n\
\tpub kind: TokenKind,\n\
\t/// The matched text\n\
\tpub value: String,\n\
\t/// The position of the token in the input, in bytes from 0\n\
\tpub index: usize,\n\
\t/// The line of the token, from 1\n\
\tpub row: usize,\n\
\t/// The column of the token, from 1\n\
\tpub col: usize,\n\
\t/// The length of the token\n\
\tpub length: usize,\n\
\t/// The number of spaces at the start of the token's line\n\
\tpub indent: usize,\n\
\t/// A tag for the caller's use\n\
\tpub tag: isize,\n\
}\n\
\n\
impl Token {\n\
\tpub fn new(\n\
\t\tkind: TokenKind,\n\
\t\tvalue: String,\n\
\t\tindex: usize,\n\
\t\trow: usize,\n\
\t\tcol: usize,\n\
\t\tlength: usize,\n\
\t\tindent: usize,\n\
\t) -> Self {\n\
\t\tToken { kind, value, index, row, col, length, indent, tag: 0 }\n\
\t}\n\
\n\
//----<TO_STRING_METHOD>----\n\
}\n\
\n\
/// The lexer: it holds the input and the position in it.\n\
pub struct Lexer {\n\
\x20   input: String,\n\
\x20   pos: usize,\n\
\x20   row: usize,\n\
\x20   col: usize,\n\
\x20   indent: usize,\n\
\x20   regex_cache: std::collections::HashMap<usize, Regex>,\n\
\x20   last_token_kind: Option<TokenKind>,\n\
}\n\
\n\
impl Lexer {\n\
\x20   pub fn new(input: String) -> Self {\n\
\x20       #[allow(unused_mut)]\n\
\x20       let mut regex_cache: std::collections::HashMap<usize, Regex> =\n\
\x20           std::collections::HashMap::new();\n\
//----<REG_EX_CODE>----\n\
\x20       Lexer {\n\
\x20           input,\n\
\x20           pos: 0,\n\
\x20           row: 1,\n\
\x20           col: 1,\n\
\x20           indent: 0,\n\
\x20           regex_cache,\n\
\x20           last_token_kind: None,\n\
\x20       }\n\
\x20   }\n\
\n\
\x20   /// The next token, or `None` at the end of the input.\n\
\x20   pub fn next_token(&mut self) -> Option<Token> {\n\
\x20       if self.pos >= self.input.len() {\n\
\x20           return None;\n\
\x20       }\n\
\n\
\x20       let rest: String = self.input[self.pos..].to_string();\n\
\x20       let remaining: &str = rest.as_str();\n\
\x20       let start_row = self.row;\n\
\x20       let start_col = self.col;\n\
\n\
\x20       // The indent of a line is the number of spaces at its start\n\
\x20       if self.col == 1 {\n\
\x20           self.indent = remaining.chars().take_while(|&c| c == ' ').count();\n\
\x20       }\n\
\x20       let indent = self.indent;\n\
\x20       let _ = (start_row, start_col, indent);\n\
\n\
//----<RULE_MATCH_CODE>----\n\
\x20       // No rule matched: one character becomes an unknown token\n\
\x20       let ch = remaining.chars().next().unwrap();\n\
\x20       let matched = ch.to_string();\n\
\x20       let token = Token::new(\n\
\x20           TokenKind::Unknown,\n\
\x20           matched.clone(),\n\
\x20           self.pos,\n\
\x20           start_row,\n\
\x20           start_col,\n\
\x20           1,\n\
\x20           indent,\n\
\x20       );\n\
\x20       self.advance(&matched);\n\
\x20       Some(token)\n\
\x20   }\n\
\n\
\x20   #[allow(dead_code)]\n\
\x20   fn match_cached_pattern(&self, input: &str, key: usize) -> Option<String> {\n\
\x20       let regex = self.regex_cache.get(&key)?;\n\
\x20       regex.find(input).map(|found| found.as_str().to_string())\n\
\x20   }\n\
\n\
\x20   fn advance(&mut self, matched: &str) {\n\
\x20       for ch in matched.chars() {\n\
\x20           self.pos += ch.len_utf8();\n\
\x20           if ch == '\\n' {\n\
\x20               self.row += 1;\n\
\x20               self.col = 1;\n\
\x20           } else {\n\
\x20               self.col += 1;\n\
\x20           }\n\
\x20       }\n\
\x20   }\n\
}\n\
";

/// Opens the constructor of a tokenizer, up to the statements that compile
/// the patterns.
pub const CONSTRUCTOR_OPEN: &'static str =
    "impl Lexer {\n    pub fn new(input: String) -> Self {\n        let mut regex_cache = HashMap::new();\n        \n        // Pre-compile all patterns and store them in cache\n";

/// Opens the statement that compiles the pattern of one rule, up to the
/// number of the rule.
pub const CONSTRUCTOR_INSERT: &'static str =
    "        regex_cache.insert(";

/// Stands between the number of a rule and its anchored pattern.
pub const CONSTRUCTOR_PATTERN: &'static str =
    ", Regex::new(r\"";

/// Closes the statement that compiles the pattern of one rule.
pub const CONSTRUCTOR_INSERTED: &'static str =
    "\").unwrap());\n";

/// Closes the constructor of a tokenizer.
pub const CONSTRUCTOR_CLOSE: &'static str =
    "        \n        Lexer {\n            input,\n            pos: 0,\n            row: 1,\n            col: 1,\n            regex_cache,\n        }\n    }\n\n";

/// Opens the fragment that tries one rule, up to the pattern in its comment.
pub const RULE_MATCH_OPEN: &'static str =
    "        // Rule: ";

/// Stands before the name of the rule in the comment.
pub const RULE_MATCH_ARROW: &'static str =
    " -> ";

/// Ends the comment and opens the lookup of the compiled pattern, up to the
/// number of the rule.
pub const RULE_MATCH_LOOKUP: &'static str =
    "\n        if let Some(matched) = self.match_cached_pattern(remaining, ";

/// Ends the lookup and opens the token, up to its kind.
pub const RULE_MATCH_TOKEN: &'static str =
    ") {\n            let token = Token::new(\n                ";

/// Closes the fragment: the token is built, the input advanced.
pub const RULE_MATCH_CLOSE: &'static str =
    ",\n                matched.clone(),\n                start_row,\n                start_col,\n                matched.len(),\n                indent,\n            );\n            self.advance(&matched);\n            return Some(token);\n        }\n\n";

/// The statement that compiles the pattern of `rule` and keeps it under the
/// number of the rule.
pub open spec fn constructor_line(rule: RuleView) -> Seq<char> {
    CONSTRUCTOR_INSERT@ + decimal(rule.kind) + CONSTRUCTOR_PATTERN@ + anchored(
        regex_text(rule.pattern),
    ) + CONSTRUCTOR_INSERTED@
}

/// The statements that compile the patterns of `rules`, in order.
pub open spec fn constructor_lines(rules: Seq<RuleView>) -> Seq<char>
    decreases rules.len(),
{
    if rules.len() == 0 {
        Seq::empty()
    } else {
        constructor_lines(rules.drop_last()) + constructor_line(rules.last())
    }
}

/// The constructor of a tokenizer whose token kinds are the numbers of the
/// rules.
pub open spec fn constructor_text(rules: Seq<RuleView>) -> Seq<char> {
    CONSTRUCTOR_OPEN@ + constructor_lines(rules) + CONSTRUCTOR_CLOSE@
}

/// The fragment that tries the rule with the number `kind`.
pub open spec fn rule_match_text(pattern: Seq<char>, name: Seq<char>, kind: nat) -> Seq<char> {
    RULE_MATCH_OPEN@ + pattern + RULE_MATCH_ARROW@ + name + RULE_MATCH_LOOKUP@ + decimal(kind)
        + RULE_MATCH_TOKEN@ + decimal(kind) + RULE_MATCH_CLOSE@
}

/// Writes the constructor of a tokenizer whose token kinds are the numbers
/// of the rules: it compiles the pattern of every rule, once.
pub fn lexer_constructor_template(rules: &[LexerRule]) -> (out: String)
    ensures
        out@ == constructor_text(rule_views(rules@)),
{
    let ghost views = rule_views(rules@);
    let n = rules.len();
    let mut out = String::from_str(CONSTRUCTOR_OPEN);
    let mut i: usize = 0;
    while i < n
        invariant
            views == rule_views(rules@),
            n == rules@.len(),
            i <= n,
            out@ == CONSTRUCTOR_OPEN@ + constructor_lines(views.take(i as int)),
        decreases n - i,
    {
        proof {
            assert(views.take(i + 1).drop_last() =~= views.take(i as int));
        }
        let rule = &rules[i];
        let pattern = anchor(pattern_to_regex(&rule.pattern).as_str());
        let mut line = String::from_str(CONSTRUCTOR_INSERT);
        append_decimal(&mut line, rule.kind);
        line.append(CONSTRUCTOR_PATTERN);
        line.append(pattern.as_str());
        line.append(CONSTRUCTOR_INSERTED);
        out.append(line.as_str());
        i += 1;
    }
    assert(views.take(n as int) =~= views);
    out.append(CONSTRUCTOR_CLOSE);
    out
}

/// Writes the fragment that tries one rule of a tokenizer whose token kinds
/// are numbers.
pub fn rule_match_template(rule_pattern: &str, rule_name: &str, rule_kind: u32) -> (out: String)
    ensures
        out@ == rule_match_text(rule_pattern@, rule_name@, rule_kind as nat),
{
    let mut out = String::from_str(RULE_MATCH_OPEN);
    out.append(rule_pattern);
    out.append(RULE_MATCH_ARROW);
    out.append(rule_name);
    out.append(RULE_MATCH_LOOKUP);
    append_decimal(&mut out, rule_kind as usize);
    out.append(RULE_MATCH_TOKEN);
    append_decimal(&mut out, rule_kind as usize);
    out.append(RULE_MATCH_CLOSE);
    out
}

} // verus!
