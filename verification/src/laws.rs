//! What holds of every definition file and of the specification that it
//! gives.

use vstd::prelude::*;
use crate::error::{section_count_error, ErrorView, ParseErrorKind};
use crate::grammar::{
    add_line, assemble, empty_assembly, is_rule_line, parsed, plain_rule, read_line, sections,
    Assembly, LineReading, ARROW, SECTION_DELIMITER,
};
use crate::rules::{
    contexts_declared_earlier, declares, numbered_in_order, RuleView, SpecView,
};
use crate::text::{index_of, lemma_index_of_some, lemma_split_count, occurrences, trim};

verus! {

/// The number of delimiters of a document.
pub open spec fn delimiter_count(doc: Seq<char>) -> nat {
    occurrences(doc, SECTION_DELIMITER@)
}

/// A document has one section more than it has delimiters.
pub proof fn lemma_sections(doc: Seq<char>)
    ensures
        sections(doc).len() == delimiter_count(doc) + 1,
{
    lemma_split_count(doc, SECTION_DELIMITER@);
}

/// No line fails for the number of sections.
pub proof fn lemma_assemble_error_kind(so_far: Assembly, text: Seq<char>)
    ensures
        assemble(so_far, text) matches Err(error) ==> error.kind != ParseErrorKind::SectionCount,
    decreases text.len(),
{
    match index_of(text, seq!['\n']) {
        Some(end) => {
            lemma_index_of_some(text, seq!['\n']);
            if let Ok(next) = add_line(so_far, text.take(end)) {
                lemma_assemble_error_kind(next, text.skip(end + 1));
            }
        },
        None => {},
    }
}

/// A document whose number of delimiters is not two fails for the number of
/// its sections, whatever else it holds. A document with two delimiters
/// never fails for that: its rules are read, and it gives what they give.
pub proof fn lemma_section_count(doc: Seq<char>)
    ensures
        delimiter_count(doc) != 2 ==> parsed(doc) == Err::<SpecView, ErrorView>(
            section_count_error(),
        ),
        delimiter_count(doc) == 2 ==> !(parsed(doc) matches Err(error) && error.kind
            == ParseErrorKind::SectionCount),
        delimiter_count(doc) == 2 ==> (parsed(doc) is Ok <==> assemble(
            empty_assembly(),
            sections(doc)[1],
        ) is Ok),
{
    lemma_sections(doc);
    if delimiter_count(doc) == 2 {
        lemma_assemble_error_kind(empty_assembly(), sections(doc)[1]);
    }
}

/// The line, if it is a rule; nothing, if it is not.
pub open spec fn kept(line: Seq<char>) -> Seq<Seq<char>> {
    if is_rule_line(line) {
        seq![line]
    } else {
        Seq::empty()
    }
}

/// The rule lines of a rules section, in order and without the white space
/// around them: the lines that are not blank, no comments and no
/// declarations of token names.
pub open spec fn rule_lines(text: Seq<char>) -> Seq<Seq<char>>
    decreases text.len(),
{
    match index_of(text, seq!['\n']) {
        Some(end) => {
            proof {
                lemma_index_of_some(text, seq!['\n']);
            }
            kept(trim(text.take(end))) + rule_lines(text.skip(end + 1))
        },
        None => kept(trim(text)),
    }
}

/// Whether the rules behind the first `from` of `rules` are those that the
/// rule lines `lines` give, line by line: each rule is what its line says
/// behind the rules before it.
pub open spec fn rules_follow(rules: Seq<RuleView>, from: int, lines: Seq<Seq<char>>) -> bool {
    &&& rules.len() == from + lines.len()
    &&& forall|k: int|
        0 <= k < lines.len() ==> read_line(#[trigger] lines[k], rules.take(from + k)) == Ok::<
            LineReading,
            ErrorView,
        >(LineReading::Rule(rules[from + k]))
}

/// A line keeps the rules before it and adds its rule, if it is a rule line.
pub proof fn lemma_add_line_rules(so_far: Assembly, line: Seq<char>)
    ensures
        add_line(so_far, line) matches Ok(next) ==> {
            &&& next.rules.take(so_far.rules.len() as int) == so_far.rules
            &&& rules_follow(next.rules, so_far.rules.len() as int, kept(trim(line)))
        },
{
    if let Ok(next) = add_line(so_far, line) {
        let text = trim(line);
        let n = so_far.rules.len() as int;
        match read_line(text, so_far.rules) {
            Ok(LineReading::Rule(rule)) => {
                assert(next.rules.take(n) =~= so_far.rules);
                assert(kept(text) =~= seq![text]);
            },
            _ => {
                assert(next.rules.take(n) =~= so_far.rules);
            },
        }
    }
}

/// Assembling keeps the rules before the text and adds the rules of the
/// rule lines, in the order of the lines.
pub proof fn lemma_assemble_rules(so_far: Assembly, text: Seq<char>)
    ensures
        assemble(so_far, text) matches Ok(done) ==> {
            &&& done.rules.take(so_far.rules.len() as int) == so_far.rules
            &&& rules_follow(done.rules, so_far.rules.len() as int, rule_lines(text))
        },
    decreases text.len(),
{
    let n = so_far.rules.len() as int;
    match index_of(text, seq!['\n']) {
        Some(end) => {
            lemma_index_of_some(text, seq!['\n']);
            lemma_add_line_rules(so_far, text.take(end));
            if let Ok(next) = add_line(so_far, text.take(end)) {
                lemma_assemble_rules(next, text.skip(end + 1));
                if let Ok(done) = assemble(next, text.skip(end + 1)) {
                    assert(done.rules.take(n) =~= next.rules.take(n));
                }
            }
        },
        None => {
            lemma_add_line_rules(so_far, text);
        },
    }
}

/// A rule that a line gives has the number of rules before it for its
/// number.
pub proof fn lemma_rule_number(line: Seq<char>, rules: Seq<RuleView>)
    ensures
        read_line(line, rules) matches Ok(LineReading::Rule(rule)) ==> rule.kind == rules.len(),
{
}

/// The rules of a specification are those of the rule lines of its
/// document, in the order of the lines, and they are numbered from 0 without
/// a gap: of N rule lines come N rules with the numbers 0 to N - 1, action
/// rules among them.
pub proof fn lemma_parsed_rules(doc: Seq<char>)
    ensures
        parsed(doc) matches Ok(spec) ==> {
            let lines = rule_lines(sections(doc)[1]);
            &&& rules_follow(spec.rules, 0, lines)
            &&& spec.rules.len() == lines.len()
            &&& numbered_in_order(spec.rules)
        },
{
    if let Ok(spec) = parsed(doc) {
        let text = sections(doc)[1];
        let lines = rule_lines(text);
        lemma_assemble_rules(empty_assembly(), text);
        assert forall|k: int| 0 <= k < spec.rules.len() implies (#[trigger] spec.rules[k]).kind
            == k by {
            lemma_rule_number(lines[k], spec.rules.take(k));
        }
    }
}

/// The context that a context rule line names: the text between its `%` and
/// the first space before its first arrow.
pub open spec fn named_context(line: Seq<char>) -> Option<Seq<char>> {
    if is_rule_line(line) && line[0] == '%' {
        match index_of(line, ARROW@) {
            Some(arrow) => {
                let left = trim(line.subrange(1, arrow));
                match index_of(left, seq![' ']) {
                    Some(space) => Some(trim(left.take(space))),
                    None => None,
                }
            },
            None => None,
        }
    } else {
        None
    }
}

/// The token that a rule line declares for the lines behind it, as the rule
/// with the number `kind`: the name of its rule, unless the name is empty or
/// the rule runs an action.
pub open spec fn declared_name(line: Seq<char>, kind: nat) -> Option<Seq<char>> {
    if !is_rule_line(line) {
        None
    } else if line[0] == '%' {
        match index_of(line, ARROW@) {
            Some(arrow) => {
                let name = trim(line.skip(arrow + ARROW@.len()));
                if name.len() > 0 {
                    Some(name)
                } else {
                    None
                }
            },
            None => None,
        }
    } else {
        let rule = plain_rule(line, kind);
        if rule.action_code is None && rule.name.len() > 0 {
            Some(rule.name)
        } else {
            None
        }
    }
}

/// A document fails to parse where a context rule names a token that no
/// rule line before it declares: a token that is declared nowhere, and just
/// as well one that is declared only behind the context rule.
pub proof fn lemma_undeclared_context_fails(doc: Seq<char>, k: int, context: Seq<char>)
    requires
        delimiter_count(doc) == 2,
        0 <= k < rule_lines(sections(doc)[1]).len(),
        named_context(rule_lines(sections(doc)[1])[k]) == Some(context),
        forall|j: int|
            0 <= j < k ==> declared_name(#[trigger] rule_lines(sections(doc)[1])[j], j as nat)
                != Some(context),
    ensures
        parsed(doc) is Err,
{
    lemma_sections(doc);
    if let Ok(spec) = parsed(doc) {
        let lines = rule_lines(sections(doc)[1]);
        lemma_parsed_rules(doc);
        let before = spec.rules.take(k);
        let j = choose|j: int| declares(before, j, context);
        assert(read_line(lines[j], spec.rules.take(j)) == Ok::<LineReading, ErrorView>(
            LineReading::Rule(spec.rules[j]),
        ));
    }
}

/// A line adds its rule behind the rules before it, whose contexts stay
/// declared.
pub proof fn lemma_add_line_contexts(so_far: Assembly, line: Seq<char>)
    requires
        contexts_declared_earlier(so_far.rules),
    ensures
        add_line(so_far, line) matches Ok(next) ==> contexts_declared_earlier(next.rules),
{
    if let Ok(next) = add_line(so_far, line) {
        let text = trim(line);
        if let Ok(LineReading::Rule(rule)) = read_line(text, so_far.rules) {
            let rules = so_far.rules;
            assert forall|i: int| 0 <= i < next.rules.len() implies (
            #[trigger] next.rules[i].context_token matches Some(context) ==> exists|j: int|
                j < i && declares(next.rules, j, context)) by {
                if let Some(context) = next.rules[i].context_token {
                    if i < rules.len() {
                        let j = choose|j: int| j < i && declares(rules, j, context);
                        assert(declares(next.rules, j, context));
                    } else {
                        let j = choose|j: int| declares(rules, j, context);
                        assert(declares(next.rules, j, context));
                    }
                }
            }
        }
    }
}

/// Assembling keeps the contexts declared.
pub proof fn lemma_assemble_contexts(so_far: Assembly, text: Seq<char>)
    requires
        contexts_declared_earlier(so_far.rules),
    ensures
        assemble(so_far, text) matches Ok(done) ==> contexts_declared_earlier(done.rules),
    decreases text.len(),
{
    match index_of(text, seq!['\n']) {
        Some(end) => {
            lemma_index_of_some(text, seq!['\n']);
            lemma_add_line_contexts(so_far, text.take(end));
            if let Ok(next) = add_line(so_far, text.take(end)) {
                lemma_assemble_contexts(next, text.skip(end + 1));
            }
        },
        None => {
            lemma_add_line_contexts(so_far, text);
        },
    }
}

/// In every specification that a document gives, each context rule names a
/// token that a rule before it declares. So a document fails to parse where
/// a context rule names a token that is declared nowhere, or only behind the
/// rule.
pub proof fn lemma_parsed_contexts(doc: Seq<char>)
    ensures
        parsed(doc) matches Ok(spec) ==> contexts_declared_earlier(spec.rules),
{
    let parts = sections(doc);
    if parts.len() == 3 {
        lemma_assemble_contexts(empty_assembly(), parts[1]);
    }
}

} // verus!
