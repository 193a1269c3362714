//! Code generation: from a parsed specification to the source of a
//! tokenizer.

use vstd::prelude::*;
use crate::emitter::{emit_matchers, matcher_code, pattern_comment};
use crate::fragments;
use crate::kinds::{collect_token_kinds, token_kinds};
use crate::matching::{
    anchor, anchored, cache_key, needs_engine, pattern_to_regex, quote, quoted, regex_text,
    requires_engine, Quoting,
};
use crate::rules::{
    contexts_defined, defining_rule, find_rule, lemma_defining_rule, rule_views, texts_of,
    LexerRule, LexerSpec, RuleView, SpecView,
};
use crate::template::LEXER_TEMPLATE;
use crate::text::{append_decimal, replace_all, replace_text};

verus! {

/// The declaration of the token kind `name`: with the pattern of the first
/// rule of that name in its comment, where there is such a rule.
pub open spec fn kind_declaration(rules: Seq<RuleView>, name: Seq<char>) -> Seq<char> {
    match defining_rule(rules, name) {
        Some(i) => fragments::KIND_OPEN@ + name + fragments::KIND_COMMENT@ + pattern_comment(
            rules[i],
        ) + fragments::LINE_END@,
        None => fragments::KIND_OPEN@ + name + fragments::KIND_CUSTOM@,
    }
}

/// The declarations of the token kinds `kinds`, in order.
pub open spec fn kind_declarations(rules: Seq<RuleView>, kinds: Seq<Seq<char>>) -> Seq<char>
    decreases kinds.len(),
{
    if kinds.len() == 0 {
        Seq::empty()
    } else {
        kind_declarations(rules, kinds.drop_last()) + kind_declaration(rules, kinds.last())
    }
}

/// The statement that compiles the pattern of the rule at `position` and
/// keeps it under the key of that position, where the fragment of the rule
/// looks it up; nothing for a rule that is matched without the engine. The
/// pattern is anchored as a whole, so that it matches at the current place
/// only.
pub open spec fn registration(rule: RuleView, position: nat) -> Seq<char> {
    if needs_engine(rule.pattern) {
        fragments::REGISTER_OPEN@ + cache_key(position) + fragments::REGISTER_PATTERN@ + quoted(
            Quoting::Pattern,
            anchored(regex_text(rule.pattern)),
        ) + fragments::REGISTER_CLOSE@
    } else {
        Seq::empty()
    }
}

/// The statements that compile the patterns of `rules`, in order: one for
/// each rule that needs the engine.
pub open spec fn registrations(rules: Seq<RuleView>) -> Seq<char>
    decreases rules.len(),
{
    if rules.len() == 0 {
        Seq::empty()
    } else {
        registrations(rules.drop_last()) + registration(
            rules.last(),
            (rules.len() - 1) as nat,
        )
    }
}

/// The code that fills the store of compiled patterns when a tokenizer is
/// made: each pattern that needs the engine is compiled there, once.
pub open spec fn registry(rules: Seq<RuleView>) -> Seq<char> {
    fragments::REGISTRY_OPEN@ + registrations(rules) + fragments::REGISTRY_CLOSE@
}

/// The arm that gives the token kind `name` its name.
pub open spec fn naming_arm(name: Seq<char>) -> Seq<char> {
    fragments::NAME_OPEN@ + name + fragments::NAME_ARROW@ + name + fragments::NAME_CLOSE@
}

/// The arms for the token kinds `kinds`, in order.
pub open spec fn naming_arms(kinds: Seq<Seq<char>>) -> Seq<char>
    decreases kinds.len(),
{
    if kinds.len() == 0 {
        Seq::empty()
    } else {
        naming_arms(kinds.drop_last()) + naming_arm(kinds.last())
    }
}

/// The method that gives each token kind its name.
pub open spec fn naming_method(kinds: Seq<Seq<char>>) -> Seq<char> {
    fragments::NAMES_OPEN@ + naming_arms(kinds) + fragments::NAMES_CLOSE@
}

/// `template` with the prefix code behind its banner line, where there is
/// prefix code.
pub open spec fn with_prefix(template: Seq<char>, prefix: Seq<char>) -> Seq<char> {
    if prefix.len() > 0 {
        replace_all(
            template,
            fragments::BANNER@,
            fragments::BANNER@ + fragments::LINE_END@ + prefix + fragments::BLANK_LINE@,
        )
    } else {
        template
    }
}

/// `text` with the suffix code behind it on lines of its own, where there
/// is suffix code.
pub open spec fn with_suffix(text: Seq<char>, suffix: Seq<char>) -> Seq<char> {
    if suffix.len() > 0 {
        text + fragments::LINE_END@ + suffix + fragments::LINE_END@
    } else {
        text
    }
}

/// The source of the tokenizer for `spec`: `template` with the prefix code
/// behind its banner, then with each of its places filled in turn (the line
/// that names the source file, the token kinds, the compiled patterns, the
/// matcher fragments, the naming method), and the suffix code at the end. A
/// place is filled wherever it stands at that moment, also in text that was
/// put in before.
pub open spec fn generated_source(
    template: Seq<char>,
    spec: SpecView,
    source_file: Seq<char>,
) -> Seq<char> {
    let kinds = token_kinds(spec);
    let named = replace_all(
        with_prefix(template, spec.prefix_code),
        fragments::MARK_GENERATED_BY@,
        fragments::GENERATED_FROM@ + source_file,
    );
    let declared = replace_all(
        named,
        fragments::MARK_TOKEN_KIND@,
        kind_declarations(spec.rules, kinds),
    );
    let compiled = replace_all(declared, fragments::MARK_REG_EX_CODE@, registry(spec.rules));
    let matched = replace_all(
        compiled,
        fragments::MARK_RULE_MATCH_CODE@,
        matcher_code(spec.rules),
    );
    let complete = replace_all(matched, fragments::MARK_TO_STRING_METHOD@, naming_method(kinds));
    with_suffix(complete, spec.suffix_code)
}

/// Writes the declarations of the token kinds.
pub fn declare_kinds(rules: &[LexerRule], kinds: &Vec<String>) -> (out: String)
    ensures
        out@ == kind_declarations(rule_views(rules@), texts_of(kinds@)),
{
    let ghost views = rule_views(rules@);
    let ghost names = texts_of(kinds@);
    let n = kinds.len();
    let mut out = String::new();
    let mut k: usize = 0;
    while k < n
        invariant
            views == rule_views(rules@),
            names == texts_of(kinds@),
            n == kinds@.len(),
            k <= n,
            out@ == kind_declarations(views, names.take(k as int)),
        decreases n - k,
    {
        proof {
            assert(names.take(k + 1).drop_last() =~= names.take(k as int));
            lemma_defining_rule(views, kinds@[k as int]@);
        }
        let name = &kinds[k];
        let mut line = String::from_str(fragments::KIND_OPEN);
        line.append(name.as_str());
        match find_rule(rules, name) {
            Some(i) => {
                let text = pattern_to_regex(&rules[i].pattern);
                let comment = quote(Quoting::Comment, text.as_str());
                line.append(fragments::KIND_COMMENT);
                line.append(comment.as_str());
                line.append(fragments::LINE_END);
            },
            None => {
                line.append(fragments::KIND_CUSTOM);
            },
        }
        out.append(line.as_str());
        k += 1;
    }
    assert(names.take(n as int) =~= names);
    out
}

/// Writes the code that compiles the patterns which need the matching
/// engine.
pub fn register_patterns(rules: &[LexerRule]) -> (out: String)
    ensures
        out@ == registry(rule_views(rules@)),
{
    let ghost views = rule_views(rules@);
    let n = rules.len();
    let mut out = String::from_str(fragments::REGISTRY_OPEN);
    let mut i: usize = 0;
    while i < n
        invariant
            views == rule_views(rules@),
            n == rules@.len(),
            i <= n,
            out@ == fragments::REGISTRY_OPEN@ + registrations(views.take(i as int)),
        decreases n - i,
    {
        proof {
            assert(views.take(i + 1).drop_last() =~= views.take(i as int));
        }
        let rule = &rules[i];
        if requires_engine(&rule.pattern) {
            let text = anchor(pattern_to_regex(&rule.pattern).as_str());
            let written = quote(Quoting::Pattern, text.as_str());
            let mut line = String::from_str(fragments::REGISTER_OPEN);
            append_decimal(&mut line, i);
            line.append(fragments::REGISTER_PATTERN);
            line.append(written.as_str());
            line.append(fragments::REGISTER_CLOSE);
            out.append(line.as_str());
        }
        i += 1;
    }
    assert(views.take(n as int) =~= views);
    out.append(fragments::REGISTRY_CLOSE);
    out
}

/// Writes the method that gives each token kind its name.
pub fn name_kinds(kinds: &Vec<String>) -> (out: String)
    ensures
        out@ == naming_method(texts_of(kinds@)),
{
    let ghost names = texts_of(kinds@);
    let n = kinds.len();
    let mut out = String::from_str(fragments::NAMES_OPEN);
    let mut k: usize = 0;
    while k < n
        invariant
            names == texts_of(kinds@),
            n == kinds@.len(),
            k <= n,
            out@ == fragments::NAMES_OPEN@ + naming_arms(names.take(k as int)),
        decreases n - k,
    {
        proof {
            assert(names.take(k + 1).drop_last() =~= names.take(k as int));
        }
        let name = &kinds[k];
        let mut arm = String::from_str(fragments::NAME_OPEN);
        arm.append(name.as_str());
        arm.append(fragments::NAME_ARROW);
        arm.append(name.as_str());
        arm.append(fragments::NAME_CLOSE);
        out.append(arm.as_str());
        k += 1;
    }
    assert(names.take(n as int) =~= names);
    out.append(fragments::NAMES_CLOSE);
    out
}

/// Generates the source of a tokenizer from `template`.
///
/// Each context rule of `spec` has to name a token that a rule of `spec`
/// produces; a parsed specification does.
pub fn generate_from_template(template: &str, spec: &LexerSpec, source_file: &str) -> (out:
    String)
    requires
        contexts_defined(spec@.rules),
    ensures
        out@ == generated_source(template@, spec@, source_file@),
{
    let mut out = String::from_str(template);
    if !spec.prefix_code.as_str().is_empty() {
        let mut banner = String::from_str(fragments::BANNER);
        banner.append(fragments::LINE_END);
        banner.append(spec.prefix_code.as_str());
        banner.append(fragments::BLANK_LINE);
        out = replace_text(out.as_str(), fragments::BANNER, banner.as_str());
    }
    let kinds = collect_token_kinds(spec);
    let declarations = declare_kinds(spec.rules.as_slice(), &kinds);
    let registry = register_patterns(spec.rules.as_slice());
    let matchers = emit_matchers(spec.rules.as_slice());
    let naming = name_kinds(&kinds);
    let mut source_line = String::from_str(fragments::GENERATED_FROM);
    source_line.append(source_file);
    out = replace_text(out.as_str(), fragments::MARK_GENERATED_BY, source_line.as_str());
    out = replace_text(out.as_str(), fragments::MARK_TOKEN_KIND, declarations.as_str());
    out = replace_text(out.as_str(), fragments::MARK_REG_EX_CODE, registry.as_str());
    out = replace_text(out.as_str(), fragments::MARK_RULE_MATCH_CODE, matchers.as_str());
    out = replace_text(out.as_str(), fragments::MARK_TO_STRING_METHOD, naming.as_str());
    if !spec.suffix_code.as_str().is_empty() {
        out.append(fragments::LINE_END);
        out.append(spec.suffix_code.as_str());
        out.append(fragments::LINE_END);
    }
    out
}

/// Generates the source of a tokenizer for `spec`, with a comment that names
/// `source_file` as its source.
///
/// The source holds the token kinds, a store of compiled patterns that is
/// filled once when a tokenizer is made, the matcher fragments in the order
/// in which the rules are tried, and the prefix and suffix code of `spec`.
///
/// Each context rule of `spec` has to name a token that a rule of `spec`
/// produces; a parsed specification does.
pub fn generate_lexer(spec: &LexerSpec, source_file: &str) -> (out: String)
    requires
        contexts_defined(spec@.rules),
    ensures
        out@ == generated_source(LEXER_TEMPLATE@, spec@, source_file@),
{
    generate_from_template(LEXER_TEMPLATE, spec, source_file)
}

} // verus!
