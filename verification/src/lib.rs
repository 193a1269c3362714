//! A lexer generator: it reads a definition file (token patterns and
//! snippets of host code) and emits the source of a tokenizer.
//!
//! [`parse_spec`] reads a definition file into a [`LexerSpec`], and
//! [`generate_lexer`] writes the source of the tokenizer for it. The modules
//! follow the way from the one to the other:
//!
//! - [`pattern`]: the patterns and how they are written;
//! - [`rules`], [`grammar`], [`parser`], [`error`]: the specification, what a
//!   definition file says, and the parser that reads it;
//! - [`matching`]: how each pattern is matched, directly or through the
//!   matching engine;
//! - [`kinds`]: the token kinds of the tokenizer;
//! - [`emitter`]: the matcher fragments and their order;
//! - [`generator`], [`template`], [`fragments`]: the source text;
//! - [`laws`]: what holds of every definition file;
//! - [`text`], [`engine`], [`token`]: text operations, the escaping of the
//!   matching engine, and the token of a tokenizer.
//!
//! The generated tokenizer tries the rules in a fixed order and takes the
//! first that matches: context rules, then action rules, then plain rules,
//! each tier in the order of declaration. It does not look for the longest
//! match.

pub mod emitter;
pub mod engine;
pub mod error;
pub mod fragments;
pub mod generator;
pub mod grammar;
pub mod kinds;
pub mod laws;
pub mod matching;
pub mod parser;
pub mod pattern;
pub mod rules;
pub mod template;
pub mod text;
pub mod token;

pub use error::{ParseError, ParseErrorKind};
pub use generator::generate_lexer;
pub use parser::parse_spec;
pub use pattern::RulePattern;
pub use rules::{LexerRule, LexerSpec};
pub use token::Token;
