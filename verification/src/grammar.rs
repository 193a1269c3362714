//! What a definition file says: the grammar of its lines, and the
//! specification that its lines give one after the other.

use vstd::prelude::*;
use crate::error::{
    bad_context_error, missing_arrow_error, section_count_error, unknown_context_error, ErrorView,
};
use crate::pattern::pattern_of;
use crate::rules::{declares, RuleView, SpecView};
use crate::text::{decimal, index_of, is_space, lemma_index_of_some, split, trim};

verus! {

/// The text that stands between the sections of a document.
pub const SECTION_DELIMITER: &'static str = "%%";

/// The text that stands between the pattern of a rule and its name or
/// action.
pub const ARROW: &'static str = "->";

/// The text that opens a comment line.
pub const COMMENT_OPEN: &'static str = "//";

/// The text that opens a declaration of token names.
pub const TOKEN_DIRECTIVE: &'static str = "%token";

/// The text that opens the name of a rule that is written without one.
pub const NUMBERED_NAME_OPEN: &'static str = "TOKEN_";

/// The name that is written `_`.
pub const WHITESPACE_NAME: &'static str = "Whitespace";

/// Whether `c` stands between declared token names: white space and the
/// comma do.
pub open spec fn is_separator(c: char) -> bool {
    is_space(c) || c == ','
}

/// The end of the name that begins at `from`: the position of the next
/// separator, or the end of `s`.
pub open spec fn name_end(s: Seq<char>, from: int) -> int
    decreases s.len() - from,
{
    if 0 <= from < s.len() && !is_separator(s[from]) {
        name_end(s, from + 1)
    } else {
        from
    }
}

/// A name ends behind its first character, and within the text.
pub proof fn lemma_name_end(s: Seq<char>, from: int)
    ensures
        from <= name_end(s, from),
        0 <= from <= s.len() ==> name_end(s, from) <= s.len(),
        0 <= from < s.len() && !is_separator(s[from]) ==> from < name_end(s, from),
    decreases s.len() - from,
{
    if 0 <= from < s.len() && !is_separator(s[from]) {
        lemma_name_end(s, from + 1);
    }
}

/// The token names that `s` declares behind the position `from`: the
/// longest runs of characters that are no separators, in order.
pub open spec fn declared_tokens(s: Seq<char>, from: int) -> Seq<Seq<char>>
    decreases s.len() - from,
{
    if 0 <= from < s.len() {
        if is_separator(s[from]) {
            declared_tokens(s, from + 1)
        } else {
            proof {
                lemma_name_end(s, from);
            }
            seq![s.subrange(from, name_end(s, from))] + declared_tokens(s, name_end(s, from))
        }
    } else {
        Seq::empty()
    }
}

/// Whether a rule of `rules` declares the token `name`.
pub open spec fn is_declared(rules: Seq<RuleView>, name: Seq<char>) -> bool {
    exists|j: int| declares(rules, j, name)
}

/// What a context rule line says, for a line that begins with `%`: the text
/// between the `%` and the first arrow is a context name, one space and a
/// pattern; the text behind the arrow is the name of the token. The context
/// has to be declared by one of `rules`, the rules before the line.
pub open spec fn context_rule(line: Seq<char>, rules: Seq<RuleView>) -> Result<
    RuleView,
    ErrorView,
> {
    match index_of(line, ARROW@) {
        Some(arrow) => {
            let left = trim(line.subrange(1, arrow));
            let name = trim(line.skip(arrow + ARROW@.len()));
            match index_of(left, seq![' ']) {
                Some(space) => {
                    let context = trim(left.take(space));
                    if is_declared(rules, context) {
                        Ok(
                            RuleView {
                                pattern: pattern_of(left.skip(space + 1)),
                                kind: rules.len(),
                                name,
                                context_token: Some(context),
                                action_code: None,
                            },
                        )
                    } else {
                        Err(unknown_context_error(context, line))
                    }
                },
                None => Err(bad_context_error(line)),
            }
        },
        None => Err(missing_arrow_error(line)),
    }
}

/// Whether `right`, the text behind the arrow, is an action: code between
/// braces.
pub open spec fn is_action(right: Seq<char>) -> bool {
    right.len() >= 2 && right[0] == '{' && right.last() == '}'
}

/// The name that the text behind the arrow gives a rule: the text itself,
/// and `Whitespace` for `_`.
pub open spec fn rule_name(right: Seq<char>) -> Seq<char> {
    if right == seq!['_'] {
        WHITESPACE_NAME@
    } else {
        right
    }
}

/// What a line says that is neither a declaration nor a context rule: a
/// pattern and behind the first arrow an action or a name, or a pattern
/// alone, which is named by the number of the rule.
pub open spec fn plain_rule(line: Seq<char>, kind: nat) -> RuleView {
    match index_of(line, ARROW@) {
        Some(arrow) => {
            let right = trim(line.skip(arrow + ARROW@.len()));
            if is_action(right) {
                RuleView {
                    pattern: pattern_of(line.take(arrow)),
                    kind,
                    name: Seq::empty(),
                    context_token: None,
                    action_code: Some(trim(right.subrange(1, right.len() - 1))),
                }
            } else {
                RuleView {
                    pattern: pattern_of(line.take(arrow)),
                    kind,
                    name: rule_name(right),
                    context_token: None,
                    action_code: None,
                }
            }
        },
        None => RuleView {
            pattern: pattern_of(line),
            kind,
            name: NUMBERED_NAME_OPEN@ + decimal(kind),
            context_token: None,
            action_code: None,
        },
    }
}

/// What one line of the rules section adds to a specification.
pub enum LineReading {
    /// Nothing: the line is blank or a comment.
    Nothing,
    /// Declared token names.
    Tokens(Seq<Seq<char>>),
    /// A rule.
    Rule(RuleView),
}

/// Whether the line is left out: it is blank or a comment.
pub open spec fn is_skipped(line: Seq<char>) -> bool {
    line.len() == 0 || COMMENT_OPEN@.is_prefix_of(line)
}

/// Whether the line is a rule of some form.
pub open spec fn is_rule_line(line: Seq<char>) -> bool {
    !is_skipped(line) && !TOKEN_DIRECTIVE@.is_prefix_of(line)
}

/// What the line `line` says, which stands behind the rules `rules` and has
/// no white space around it. The number of a rule is the number of rules
/// before it.
pub open spec fn read_line(line: Seq<char>, rules: Seq<RuleView>) -> Result<
    LineReading,
    ErrorView,
> {
    if is_skipped(line) {
        Ok(LineReading::Nothing)
    } else if TOKEN_DIRECTIVE@.is_prefix_of(line) {
        Ok(LineReading::Tokens(declared_tokens(line.skip(TOKEN_DIRECTIVE@.len() as int), 0)))
    } else if line[0] == '%' {
        match context_rule(line, rules) {
            Ok(rule) => Ok(LineReading::Rule(rule)),
            Err(error) => Err(error),
        }
    } else {
        Ok(LineReading::Rule(plain_rule(line, rules.len())))
    }
}

/// The rules and the declared names that have been read so far.
pub struct Assembly {
    pub rules: Seq<RuleView>,
    pub custom_tokens: Seq<Seq<char>>,
}

/// The assembly after the line `line`, which is taken without the white
/// space around it.
pub open spec fn add_line(so_far: Assembly, line: Seq<char>) -> Result<Assembly, ErrorView> {
    match read_line(trim(line), so_far.rules) {
        Ok(LineReading::Nothing) => Ok(so_far),
        Ok(LineReading::Tokens(names)) => Ok(
            Assembly { rules: so_far.rules, custom_tokens: so_far.custom_tokens + names },
        ),
        Ok(LineReading::Rule(rule)) => Ok(
            Assembly { rules: so_far.rules.push(rule), custom_tokens: so_far.custom_tokens },
        ),
        Err(error) => Err(error),
    }
}

/// The assembly after the lines of `text`, which are divided by line feeds:
/// each line adds to what the lines before it gave, and the first line that
/// cannot be read ends the assembly with its error.
pub open spec fn assemble(so_far: Assembly, text: Seq<char>) -> Result<Assembly, ErrorView>
    decreases text.len(),
{
    match index_of(text, seq!['\n']) {
        Some(end) => {
            proof {
                lemma_index_of_some(text, seq!['\n']);
            }
            match add_line(so_far, text.take(end)) {
                Ok(next) => assemble(next, text.skip(end + 1)),
                Err(error) => Err(error),
            }
        },
        None => add_line(so_far, text),
    }
}

/// The assembly that holds nothing.
pub open spec fn empty_assembly() -> Assembly {
    Assembly { rules: Seq::empty(), custom_tokens: Seq::empty() }
}

/// The sections of a document: the texts between its delimiters.
pub open spec fn sections(doc: Seq<char>) -> Seq<Seq<char>> {
    split(doc, SECTION_DELIMITER@)
}

/// What a definition file says. A file has exactly three sections: prefix
/// code, rules, suffix code. The code is taken without the white space around
/// it; the rules are assembled line by line.
pub open spec fn parsed(doc: Seq<char>) -> Result<SpecView, ErrorView> {
    let parts = sections(doc);
    if parts.len() != 3 {
        Err(section_count_error())
    } else {
        match assemble(empty_assembly(), parts[1]) {
            Ok(assembly) => Ok(
                SpecView {
                    prefix_code: trim(parts[0]),
                    rules: assembly.rules,
                    suffix_code: trim(parts[2]),
                    custom_tokens: assembly.custom_tokens,
                },
            ),
            Err(error) => Err(error),
        }
    }
}

} // verus!
