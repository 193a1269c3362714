//! The parser of definition files.

use vstd::prelude::*;
use vstd::slice::slice_subrange;
use crate::error::{
    ErrorView, ParseError, ParseErrorKind, BAD_CONTEXT_OPEN, MISSING_ARROW_OPEN,
    SECTION_COUNT_MESSAGE, UNKNOWN_CONTEXT_IN, UNKNOWN_CONTEXT_OPEN,
};
use crate::grammar::{
    add_line, assemble, context_rule, declared_tokens, empty_assembly,
    is_declared, name_end, parsed, plain_rule, sections, Assembly, ARROW, COMMENT_OPEN,
    NUMBERED_NAME_OPEN, SECTION_DELIMITER, TOKEN_DIRECTIVE, WHITESPACE_NAME,
};
use crate::laws::{lemma_parsed_contexts, lemma_parsed_rules};
use crate::pattern::read_pattern;
use crate::rules::{
    contexts_defined, declares, lemma_declared_contexts_are_defined, rule_views, texts_of,
    well_formed, LexerRule, LexerSpec, RuleView, SpecView,
};
use crate::text::{
    append_chars, append_decimal, chars_of, find, find_char, index_of, is_whitespace,
    lemma_index_of_some, lemma_split_pieces, starts_with, string_of, trimmed,
};

verus! {

/// Tests whether a rule of `rules` declares the token `name`.
pub fn declared(rules: &[LexerRule], name: &String) -> (b: bool)
    ensures
        b == is_declared(rule_views(rules@), name@),
{
    let ghost views = rule_views(rules@);
    if name.as_str().is_empty() {
        return false;
    }
    let n = rules.len();
    let mut i: usize = 0;
    while i < n
        invariant
            n == rules@.len(),
            views == rule_views(rules@),
            name@.len() > 0,
            i <= n,
            forall|j: int| 0 <= j < i ==> !declares(views, j, name@),
        decreases n - i,
    {
        if rules[i].action_code.is_none() && rules[i].name == *name {
            assert(declares(views, i as int, name@));
            return true;
        }
        i += 1;
    }
    false
}

/// Reads the token names that `s` declares and puts them behind `names`.
pub fn read_declared_tokens(s: &[char], names: &mut Vec<String>)
    ensures
        texts_of(final(names)@) == texts_of(old(names)@) + declared_tokens(s@, 0),
{
    let n = s.len();
    let mut from: usize = 0;
    while from < n
        invariant
            n == s@.len(),
            from <= n,
            texts_of(names@) + declared_tokens(s@, from as int) == texts_of(old(names)@)
                + declared_tokens(s@, 0),
        decreases n - from,
    {
        if is_whitespace(s[from]) || s[from] == ',' {
            from += 1;
        } else {
            let mut end = from + 1;
            while end < n && !(is_whitespace(s[end]) || s[end] == ',')
                invariant
                    n == s@.len(),
                    from < end <= n,
                    name_end(s@, from as int) == name_end(s@, end as int),
                decreases n - end,
            {
                end += 1;
            }
            let name = string_of(slice_subrange(s, from, end));
            names.push(name);
            from = end;
        }
    }
}

/// An error of the given kind whose message is `open` and then `line`.
fn line_error(kind: ParseErrorKind, open: &str, line: &[char]) -> (error: ParseError)
    ensures
        error@ == (ErrorView { kind, message: open@ + line@ }),
{
    let mut message = String::from_str(open);
    append_chars(&mut message, line);
    ParseError::of_kind(kind, message)
}

/// Reads a context rule from a line that begins with `%`.
fn read_context_rule(line: &[char], rules: &[LexerRule]) -> (r: Result<LexerRule, ParseError>)
    requires
        line@.len() > 0,
        line@[0] == '%',
    ensures
        match r {
            Ok(rule) => context_rule(line@, rule_views(rules@)) == Ok::<RuleView, ErrorView>(
                rule@,
            ),
            Err(error) => context_rule(line@, rule_views(rules@)) == Err::<RuleView, ErrorView>(
                error@,
            ),
        },
{
    let arrow_text = chars_of(ARROW);
    let n = line.len();
    match find(line, arrow_text.as_slice()) {
        Some(arrow) => {
            proof {
                reveal_strlit("->");
                lemma_index_of_some(line@, ARROW@);
                assert(arrow >= 1) by {
                    if arrow == 0 {
                        assert(line@.skip(0).subrange(0, 2)[0] == line@[0]);
                    }
                }
            }
            let left = trimmed(slice_subrange(line, 1, arrow));
            let behind = slice_subrange(line, arrow + arrow_text.len(), n);
            match find_char(left, ' ') {
                Some(space) => {
                    proof {
                        lemma_index_of_some(left@, seq![' ']);
                    }
                    let m = left.len();
                    let before = slice_subrange(left, 0, space);
                    let after = slice_subrange(left, space + 1, m);
                    let context = string_of(trimmed(before));
                    if declared(rules, &context) {
                        let pattern = read_pattern(after);
                        let name = string_of(trimmed(behind));
                        Ok(LexerRule::new_with_context(pattern, rules.len(), name, context))
                    } else {
                        let mut message = String::from_str(UNKNOWN_CONTEXT_OPEN);
                        message.append(context.as_str());
                        message.append(UNKNOWN_CONTEXT_IN);
                        append_chars(&mut message, line);
                        Err(ParseError::of_kind(ParseErrorKind::UnknownContextToken, message))
                    }
                },
                None => Err(
                    line_error(ParseErrorKind::MalformedContextRule, BAD_CONTEXT_OPEN, line),
                ),
            }
        },
        None => Err(line_error(ParseErrorKind::MalformedContextRule, MISSING_ARROW_OPEN, line)),
    }
}

/// Reads a rule from a line that is neither a declaration nor a context
/// rule; `kind` is the number of the rule.
pub fn read_plain_rule(line: &[char], kind: usize) -> (rule: LexerRule)
    ensures
        rule@ == plain_rule(line@, kind as nat),
{
    let arrow_text = chars_of(ARROW);
    let n = line.len();
    match find(line, arrow_text.as_slice()) {
        Some(arrow) => {
            proof {
                lemma_index_of_some(line@, ARROW@);
            }
            let before = slice_subrange(line, 0, arrow);
            let behind = slice_subrange(line, arrow + arrow_text.len(), n);
            let pattern = read_pattern(before);
            let right = trimmed(behind);
            let m = right.len();
            if m >= 2 && right[0] == '{' && right[m - 1] == '}' {
                let code = string_of(trimmed(slice_subrange(right, 1, m - 1)));
                let mut rule = LexerRule::new_with_action(pattern, code);
                rule.kind = kind;
                rule
            } else if m == 1 && right[0] == '_' {
                assert(right@ =~= seq!['_']);
                LexerRule::new(pattern, kind, String::from_str(WHITESPACE_NAME))
            } else {
                LexerRule::new(pattern, kind, string_of(right))
            }
        },
        None => {
            let pattern = read_pattern(line);
            let mut name = String::from_str(NUMBERED_NAME_OPEN);
            append_decimal(&mut name, kind);
            LexerRule::new(pattern, kind, name)
        },
    }
}

/// The assembly that the rules `rules` and the names `names` stand for.
pub open spec fn assembly_of(rules: Vec<LexerRule>, names: Vec<String>) -> Assembly {
    Assembly { rules: rule_views(rules@), custom_tokens: texts_of(names@) }
}

/// Reads one line of the rules section and adds what it says to `rules` and
/// `names`.
pub fn take_line(line: &[char], rules: &mut Vec<LexerRule>, names: &mut Vec<String>) -> (r:
    Result<(), ParseError>)
    ensures
        match r {
            Ok(_) => add_line(assembly_of(*old(rules), *old(names)), line@) == Ok::<
                Assembly,
                ErrorView,
            >(assembly_of(*final(rules), *final(names))),
            Err(error) => add_line(assembly_of(*old(rules), *old(names)), line@) == Err::<
                Assembly,
                ErrorView,
            >(error@),
        },
{
    let text = trimmed(line);
    let comment = chars_of(COMMENT_OPEN);
    let directive = chars_of(TOKEN_DIRECTIVE);
    if text.len() == 0 || starts_with(text, comment.as_slice()) {
        return Ok(());
    }
    if starts_with(text, directive.as_slice()) {
        let behind = slice_subrange(text, directive.len(), text.len());
        read_declared_tokens(behind, names);
        return Ok(());
    }
    if text[0] == '%' {
        match read_context_rule(text, rules.as_slice()) {
            Ok(rule) => {
                rules.push(rule);
                assert(rule_views(rules@) =~= rule_views(old(rules)@).push(rule@));
                Ok(())
            },
            Err(error) => Err(error),
        }
    } else {
        let rule = read_plain_rule(text, rules.len());
        rules.push(rule);
        assert(rule_views(rules@) =~= rule_views(old(rules)@).push(rule@));
        Ok(())
    }
}

/// Assembles the rules section of a document.
pub fn assemble_rules(section: &[char]) -> (r: Result<(Vec<LexerRule>, Vec<String>), ParseError>)
    ensures
        match r {
            Ok(found) => assemble(empty_assembly(), section@) == Ok::<Assembly, ErrorView>(
                assembly_of(found.0, found.1),
            ),
            Err(error) => assemble(empty_assembly(), section@) == Err::<Assembly, ErrorView>(
                error@,
            ),
        },
{
    let mut rules: Vec<LexerRule> = Vec::new();
    let mut names: Vec<String> = Vec::new();
    let n = section.len();
    let mut pos: usize = 0;
    proof {
        assert(section@.skip(0) =~= section@);
        assert(rule_views(rules@) =~= Seq::<RuleView>::empty());
        assert(texts_of(names@) =~= Seq::<Seq<char>>::empty());
    }
    loop
        invariant_except_break
            n == section@.len(),
            pos <= n,
            assemble(empty_assembly(), section@) == assemble(
                assembly_of(rules, names),
                section@.skip(pos as int),
            ),
        ensures
            assemble(empty_assembly(), section@) == Ok::<Assembly, ErrorView>(
                assembly_of(rules, names),
            ),
        decreases n - pos,
    {
        let rest = slice_subrange(section, pos, n);
        match find_char(rest, '\n') {
            Some(end) => {
                proof {
                    lemma_index_of_some(rest@, seq!['\n']);
                    assert(rest@.skip(end + 1) =~= section@.skip(pos + end + 1));
                }
                let line = slice_subrange(rest, 0, end);
                match take_line(line, &mut rules, &mut names) {
                    Ok(_) => {},
                    Err(error) => {
                        return Err(error);
                    },
                }
                pos = pos + end + 1;
            },
            None => {
                match take_line(rest, &mut rules, &mut names) {
                    Ok(_) => {},
                    Err(error) => {
                        return Err(error);
                    },
                }
                break ;
            },
        }
    }
    Ok((rules, names))
}

/// Divides a document into its three sections, if it has exactly three.
pub fn split_sections(doc: &[char]) -> (r: Option<(&[char], &[char], &[char])>)
    ensures
        match r {
            Some(found) => sections(doc@) == seq![found.0@, found.1@, found.2@],
            None => sections(doc@).len() != 3,
        },
{
    let delimiter = chars_of(SECTION_DELIMITER);
    let d = delimiter.len();
    let n = doc.len();
    let first = match find(doc, delimiter.as_slice()) {
        Some(first) => first,
        None => {
            return None;
        },
    };
    proof {
        lemma_index_of_some(doc@, SECTION_DELIMITER@);
    }
    let prefix = slice_subrange(doc, 0, first);
    let behind_first = slice_subrange(doc, first + d, n);
    proof {
        lemma_split_pieces(behind_first@, SECTION_DELIMITER@);
    }
    let m = behind_first.len();
    let second = match find(behind_first, delimiter.as_slice()) {
        Some(second) => second,
        None => {
            return None;
        },
    };
    proof {
        lemma_index_of_some(behind_first@, SECTION_DELIMITER@);
    }
    let section = slice_subrange(behind_first, 0, second);
    let suffix = slice_subrange(behind_first, second + d, m);
    proof {
        lemma_split_pieces(suffix@, SECTION_DELIMITER@);
    }
    if find(suffix, delimiter.as_slice()).is_some() {
        proof {
            let third = index_of(suffix@, SECTION_DELIMITER@)->Some_0;
            lemma_split_pieces(suffix@.skip(third + d), SECTION_DELIMITER@);
        }
        return None;
    }
    Some((prefix, section, suffix))
}

/// Parses a definition file:
///
/// ```text
/// (host code)
/// %%
/// (rules, one on each line)
/// %%
/// (host code)
/// ```
///
/// A line of the rules section is blank, a comment that begins with `//`, a
/// declaration `%token NAME, NAME ...`, a context rule
/// `%CONTEXT pattern -> NAME`, an action rule `pattern -> { code }`, a named
/// rule `pattern -> NAME`, or a pattern alone. The rules are numbered from 0
/// in the order in which they stand.
///
/// The result is an error where the document has not exactly three sections
/// or a context rule cannot be read, among them the context rule that names a
/// token which no rule before it declares. So code can be generated for every
/// specification that is returned.
pub fn parse_spec(input: &str) -> (r: Result<LexerSpec, ParseError>)
    ensures
        match r {
            Ok(spec) => parsed(input@) == Ok::<SpecView, ErrorView>(spec@),
            Err(error) => parsed(input@) == Err::<SpecView, ErrorView>(error@),
        },
        r matches Ok(spec) ==> well_formed(spec@) && contexts_defined(spec@.rules),
{
    let doc = chars_of(input);
    match split_sections(doc.as_slice()) {
        Some((prefix, section, suffix)) => match assemble_rules(section) {
            Ok((rules, custom_tokens)) => {
                let spec = LexerSpec {
                    prefix_code: string_of(trimmed(prefix)),
                    rules,
                    suffix_code: string_of(trimmed(suffix)),
                    custom_tokens,
                };
                proof {
                    lemma_parsed_rules(input@);
                    lemma_parsed_contexts(input@);
                    lemma_declared_contexts_are_defined(spec@.rules);
                }
                Ok(spec)
            },
            Err(error) => Err(error),
        },
        None => Err(
            ParseError::of_kind(
                ParseErrorKind::SectionCount,
                String::from_str(SECTION_COUNT_MESSAGE),
            ),
        ),
    }
}

} // verus!
