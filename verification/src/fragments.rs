//! The fixed text of the generated matcher code.

use vstd::prelude::*;

verus! {

/// Opens the comparison with one fixed character.
pub const CHAR_MATCH_OPEN: &'static str =
    "if remaining.starts_with('";

/// Closes the comparison with one fixed character.
pub const CHAR_MATCH_CLOSE: &'static str =
    "') {\n            Some(remaining.chars().next().unwrap().to_string())\n        } else {\n            None\n        }";

/// Opens the comparison with one fixed string.
pub const STRING_MATCH_OPEN: &'static str =
    "if remaining.starts_with(\"";

/// Stands between the string compared and the string yielded.
pub const STRING_MATCH_YIELD: &'static str =
    "\") {\n            Some(\"";

/// Closes the comparison with one fixed string.
pub const STRING_MATCH_CLOSE: &'static str =
    "\".to_string())\n        } else {\n            None\n        }";

/// Takes any one character but a line feed.
pub const ANY_CHAR_MATCH: &'static str =
    "if let Some(ch) = remaining.chars().next() {\n            if ch != '\\n' {\n                Some(ch.to_string())\n            } else {\n                None\n            }\n        } else {\n            None\n        }";

/// Opens the scan over a range of characters, up to its lower bound.
pub const RANGE_MATCH_OPEN: &'static str =
    "{\n            let mut matched = String::new();\n            let mut chars = remaining.chars();\n            while let Some(ch) = chars.next() {\n                if ch >= '";

/// Stands between the bounds of the range.
pub const RANGE_MATCH_AND: &'static str =
    "' && ch <= '";

/// Closes the scan over a range of characters.
pub const RANGE_MATCH_CLOSE: &'static str =
    "' {\n                    matched.push(ch);\n                } else {\n                    break;\n                }\n            }\n            if !matched.is_empty() {\n                Some(matched)\n            } else {\n                None\n            }\n        }";

/// Opens the lookup of a compiled pattern, up to the key of the rule.
pub const ENGINE_MATCH_OPEN: &'static str =
    "self.match_cached_pattern(remaining, ";

/// Closes the lookup of a compiled pattern.
pub const ENGINE_MATCH_CLOSE: &'static str =
    ")";

/// Opens the fragment of a context rule, up to the pattern in its comment.
pub const CONTEXT_RULE_OPEN: &'static str =
    "        // Context-dependent rule: ";

/// Stands before the token name in a comment.
pub const RULE_ARROW: &'static str =
    " -> ";

/// Stands before the context token in the comment of a context rule.
pub const CONTEXT_RULE_AFTER: &'static str =
    " (after ";

/// Ends the comment of a context rule and opens its guard, up to the context token.
pub const CONTEXT_RULE_GUARD: &'static str =
    ")\n        if self.last_token_kind == Some(TokenKind::";

/// Ends the guard of a context rule and opens its match, up to the matching code.
pub const CONTEXT_RULE_MATCH: &'static str =
    ") {\n            let matched_opt = {";

/// Ends the match of a context rule and opens the token, up to its kind.
pub const CONTEXT_RULE_TOKEN: &'static str =
    "};\n            if let Some(matched) = matched_opt {\n                let token = Token::new(\n                    TokenKind::";

/// Closes the fragment of a context rule: the token is built, the input advanced, the context set.
pub const CONTEXT_RULE_CLOSE: &'static str =
    ",\n                    matched.clone(),\n                    self.pos,\n                    start_row,\n                    start_col,\n                    matched.len(),\n                    indent,\n                );\n                self.advance(&matched);\n                self.last_token_kind = Some(token.kind.clone());\n                return Some(token);\n            }\n        }\n\n";

/// Opens the fragment of an action rule, up to the pattern in its comment.
pub const ACTION_RULE_OPEN: &'static str =
    "        // Action rule: ";

/// Stands before the action code in the comment of an action rule.
pub const ACTION_RULE_BRACE: &'static str =
    " -> { ";

/// Ends the comment of an action rule and opens its match, up to the matching code.
pub const ACTION_RULE_MATCH: &'static str =
    " }\n        {\n            let matched_opt = {";

/// Ends the match of an action rule and opens the block that runs the action code.
pub const ACTION_RULE_RUN: &'static str =
    "};\n            if let Some(matched) = matched_opt {\n                let matched_str = matched.clone();\n                // Create token for action code to use\n                let test_t = Token::new(\n                    TokenKind::Unknown,\n                    matched_str.clone(),\n                    self.pos,\n                    start_row,\n                    start_col,\n                    matched_str.len(),\n                    indent,\n                );\n                self.advance(&matched_str);\n                // Execute action code with available variables\n                let action_result: Option<Token> = {\n                    ";

/// Closes the fragment of an action rule: a token that the action yields is returned, else matching goes on behind the match.
pub const ACTION_RULE_CLOSE: &'static str =
    "\n                };\n                if let Some(token) = action_result {\n                    self.last_token_kind = Some(token.kind.clone());\n                    return Some(token);\n                } else {\n                    // Continue to next iteration if no token was returned from action\n                    return self.next_token();\n                }\n            }\n        }\n\n";

/// Opens the fragment of a plain rule, up to the pattern in its comment.
pub const PLAIN_RULE_OPEN: &'static str =
    "        // Rule: ";

/// Ends the comment of a plain rule and opens its match, up to the matching code.
pub const PLAIN_RULE_MATCH: &'static str =
    "\n        {\n            let matched_opt = {";

/// Ends the match of a plain rule and opens the token, up to its kind.
pub const PLAIN_RULE_TOKEN: &'static str =
    "};\n            if let Some(matched) = matched_opt {\n                let token = Token::new(\n                    TokenKind::";

/// Ends the token of a plain rule, up to the statement on the context.
pub const PLAIN_RULE_CONTEXT: &'static str =
    ",\n                    matched.clone(),\n                    self.pos,\n                    start_row,\n                    start_col,\n                    matched.len(),\n                    indent,\n                );\n                self.advance(&matched);\n                ";

/// Closes the fragment of a plain rule.
pub const PLAIN_RULE_CLOSE: &'static str =
    ";\n                return Some(token);\n            }\n        }\n\n";

/// The statement of a plain rule whose token leaves the context as it is.
pub const KEEP_CONTEXT: &'static str =
    "// Whitespace tokens don't update context";

/// The statement of a plain rule whose token becomes the context.
pub const SET_CONTEXT: &'static str =
    "self.last_token_kind = Some(token.kind.clone())";

/// Opens the declaration of a token kind.
pub const KIND_OPEN: &'static str =
    "\t";

/// Stands between a token kind and the pattern in its comment.
pub const KIND_COMMENT: &'static str =
    ", // ";

/// Ends the declaration of a token kind that no rule defines.
pub const KIND_CUSTOM: &'static str =
    ", // Custom token\n";

/// Ends a line.
pub const LINE_END: &'static str =
    "\n";

/// Opens the statements that compile the patterns of the matching engine.
pub const REGISTRY_OPEN: &'static str =
    "        // Pre-compile patterns that require regex\n";

/// Opens the statement that compiles one pattern, up to the key of the rule.
pub const REGISTER_OPEN: &'static str =
    "        regex_cache.insert(";

/// Stands between the key of the rule and its anchored pattern.
pub const REGISTER_PATTERN: &'static str =
    ", Regex::new(\"";

/// Closes the statement that compiles one pattern.
pub const REGISTER_CLOSE: &'static str =
    "\").unwrap());\n";

/// Closes the statements that compile the patterns.
pub const REGISTRY_CLOSE: &'static str =
    "        ";

/// Opens the method that names a token kind.
pub const NAMES_OPEN: &'static str =
    "\t/// Returns a string representation of the token kind for debugging purposes.\n\t///\n\t/// # Returns\n\t///\n\t/// A human-readable string representation of the token kind\n\tpub fn to_string(&self) -> String {\n\t\tmatch self.kind {\n";

/// Opens the arm of one token kind.
pub const NAME_OPEN: &'static str =
    "\t\t\tTokenKind::";

/// Stands between a token kind and its name.
pub const NAME_ARROW: &'static str =
    " => \"";

/// Closes the arm of one token kind.
pub const NAME_CLOSE: &'static str =
    "\".to_string(),\n";

/// Closes the method that names a token kind, after the arms of the two
/// kinds that every tokenizer has.
pub const NAMES_CLOSE: &'static str =
    "\t\t\tTokenKind::Unknown => \"UNKNOWN\".to_string(),\n\t\t\tTokenKind::Eof => \"EOF\".to_string(),\n\t\t}\n\t}";

/// The line of a template behind which the prefix code is put.
pub const BANNER: &'static str =
    "// This file is auto-generated.";

/// The place of a template for the line that names the source file.
pub const MARK_GENERATED_BY: &'static str =
    "//----<GENERATED_BY>----";

/// The place of a template for the declarations of the token kinds.
pub const MARK_TOKEN_KIND: &'static str =
    "//----<TOKEN_KIND>----";

/// The place of a template for the statements that compile the patterns.
pub const MARK_REG_EX_CODE: &'static str =
    "//----<REG_EX_CODE>----";

/// The place of a template for the matcher fragments.
pub const MARK_RULE_MATCH_CODE: &'static str =
    "//----<RULE_MATCH_CODE>----";

/// The place of a template for the method that names a token kind.
pub const MARK_TO_STRING_METHOD: &'static str =
    "//----<TO_STRING_METHOD>----";

/// Opens the line that names the source file.
pub const GENERATED_FROM: &'static str =
    "// Generated from: ";

/// Ends a line and leaves one empty.
pub const BLANK_LINE: &'static str =
    "\n\n";

} // verus!
