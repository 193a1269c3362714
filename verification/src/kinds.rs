//! The token kinds of a generated tokenizer: the names of the rules, the
//! names declared with `%token`, and the names that action code refers to,
//! each once.
//!
//! Action code is host code without a grammar of its own here, so it is
//! scanned as plain text: a comment or a string in it that holds the marker
//! counts as a reference.

use vstd::prelude::*;
use vstd::slice::slice_subrange;
use crate::rules::{rule_views, texts_of, LexerSpec, RuleView, SpecView};
use crate::text::{
    alphanumeric, chars_of, find, index_of, is_alphanumeric, lemma_index_of_some, string_of,
};

verus! {

/// The text that opens a reference to a token kind in action code.
pub const KIND_MARKER: &'static str = "TokenKind::";

/// The name of the kind for text that no rule matches.
pub const UNKNOWN_KIND: &'static str = "Unknown";

/// The name of the kind for the end of the input.
pub const EOF_KIND: &'static str = "Eof";

/// Whether `name` is one of the two kinds that every tokenizer has.
pub open spec fn is_builtin_kind(name: Seq<char>) -> bool {
    name == UNKNOWN_KIND@ || name == EOF_KIND@
}

/// `names` with `name` behind it, unless it is there already.
pub open spec fn with_name(names: Seq<Seq<char>>, name: Seq<char>) -> Seq<Seq<char>> {
    if names.contains(name) {
        names
    } else {
        names.push(name)
    }
}

/// The names of `names`, each once, in the order of their first occurrence.
pub open spec fn distinct(names: Seq<Seq<char>>) -> Seq<Seq<char>>
    decreases names.len(),
{
    if names.len() == 0 {
        Seq::empty()
    } else {
        with_name(distinct(names.drop_last()), names.last())
    }
}

/// Whether the character at position `i` of a text of `len` characters may
/// stand in a name, by the flags `word`. A position without a flag may not.
pub open spec fn is_word_at(len: int, word: Seq<bool>, i: int) -> bool {
    0 <= i < len && i < word.len() && word[i]
}

/// The end of the longest run of name characters that begins at `from`.
pub open spec fn run_end(len: int, word: Seq<bool>, from: int) -> int
    decreases len - from,
{
    if is_word_at(len, word, from) {
        run_end(len, word, from + 1)
    } else {
        from
    }
}

/// The names that `code` refers to behind the position `from`, in order and
/// as often as they occur: behind each occurrence of the marker the longest
/// run of name characters, unless it is empty or names a kind that every
/// tokenizer has. `word` says of each position whether its character may
/// stand in a name.
pub open spec fn kind_references(code: Seq<char>, word: Seq<bool>, from: int) -> Seq<Seq<char>>
    decreases code.len() - from,
{
    if 0 <= from <= code.len() {
        match index_of(code.skip(from), KIND_MARKER@) {
            Some(i) => {
                let start = from + i + KIND_MARKER@.len();
                let name = code.subrange(start, run_end(code.len() as int, word, start));
                proof {
                    reveal_strlit("TokenKind::");
                    lemma_index_of_some(code.skip(from), KIND_MARKER@);
                }
                (if name.len() > 0 && !is_builtin_kind(name) {
                    seq![name]
                } else {
                    Seq::empty()
                }) + kind_references(code, word, start)
            },
            None => Seq::empty(),
        }
    } else {
        Seq::empty()
    }
}

/// Whether `c` is one of the letters `a` to `z` and `A` to `Z` or one of
/// the digits `0` to `9`.
pub open spec fn is_ascii_letter_or_digit(c: char) -> bool {
    'a' <= c <= 'z' || 'A' <= c <= 'Z' || '0' <= c <= '9'
}

/// Whether `c` may stand in a name: letters, digits and the underscore may.
/// Of the characters up to code 127 these are the letters `a` to `z` and `A`
/// to `Z` and the digits `0` to `9`; of the others, those that
/// `char::is_alphanumeric` takes for a letter or a digit.
pub open spec fn is_name_char(c: char) -> bool {
    c == '_' || (if (c as int) < 128 {
        is_ascii_letter_or_digit(c)
    } else {
        alphanumeric(c)
    })
}

/// For each character of `code`, whether it may stand in a name.
pub open spec fn word_flags(code: Seq<char>) -> Seq<bool> {
    Seq::new(code.len(), |i: int| is_name_char(code[i]))
}

/// The token kinds that `code` refers to, each once, in the order of their
/// first occurrence.
pub open spec fn referenced_kinds(code: Seq<char>) -> Seq<Seq<char>> {
    distinct(kind_references(code, word_flags(code), 0))
}

/// Whether `name` is the text `lit`.
pub fn text_is(name: &String, lit: &str) -> (b: bool)
    ensures
        b == (name@ == lit@),
{
    let other = String::from_str(lit);
    *name == other
}

/// Whether `names` holds `name`.
pub fn has_name(names: &Vec<String>, name: &String) -> (b: bool)
    ensures
        b == texts_of(names@).contains(name@),
{
    let n = names.len();
    let mut i: usize = 0;
    while i < n
        invariant
            n == names@.len(),
            i <= n,
            forall|j: int| 0 <= j < i ==> texts_of(names@)[j] != name@,
        decreases n - i,
    {
        if names[i] == *name {
            assert(texts_of(names@)[i as int] == name@);
            return true;
        }
        i += 1;
    }
    false
}

/// Puts `name` behind `names`, unless it is there already.
pub fn add_name(names: &mut Vec<String>, name: String)
    ensures
        texts_of(final(names)@) == with_name(texts_of(old(names)@), name@),
{
    if !has_name(names, &name) {
        names.push(name);
    }
}

/// Whether `name` is one of the two kinds that every tokenizer has.
pub fn is_builtin(name: &String) -> (b: bool)
    ensures
        b == is_builtin_kind(name@),
{
    text_is(name, UNKNOWN_KIND) || text_is(name, EOF_KIND)
}

/// Scans `code` for references to token kinds, given for each of its
/// characters whether it may stand in a name.
pub fn scan_kind_names(code: &[char], word: &[bool]) -> (names: Vec<String>)
    ensures
        texts_of(names@) == distinct(kind_references(code@, word@, 0)),
{
    let marker = chars_of(KIND_MARKER);
    let n = code.len();
    let m = marker.len();
    let mut names: Vec<String> = Vec::new();
    let ghost mut seen: Seq<Seq<char>> = Seq::empty();
    let mut from: usize = 0;
    proof {
        reveal_strlit("TokenKind::");
    }
    loop
        invariant_except_break
            n == code@.len(),
            marker@ == KIND_MARKER@,
            m == marker@.len(),
            m > 0,
            from <= n,
            texts_of(names@) == distinct(seen),
            kind_references(code@, word@, 0) == seen + kind_references(code@, word@, from as int),
        ensures
            texts_of(names@) == distinct(kind_references(code@, word@, 0)),
        decreases n - from,
    {
        let rest = slice_subrange(code, from, n);
        match find(rest, marker.as_slice()) {
            Some(i) => {
                proof {
                    lemma_index_of_some(rest@, marker@);
                }
                let start = from + i + m;
                let mut end = start;
                while end < n && end < word.len() && word[end]
                    invariant
                        n == code@.len(),
                        start <= end <= n,
                        run_end(n as int, word@, start as int) == run_end(
                            n as int,
                            word@,
                            end as int,
                        ),
                    decreases n - end,
                {
                    end += 1;
                }
                if end > start {
                    let name = string_of(slice_subrange(code, start, end));
                    if !is_builtin(&name) {
                        proof {
                            assert(seen.push(name@).drop_last() =~= seen);
                            seen = seen.push(name@);
                        }
                        add_name(&mut names, name);
                    }
                }
                from = start;
            },
            None => {
                break ;
            },
        }
    }
    names
}

/// Tests whether `c` may stand in a name.
pub fn is_name_character(c: char) -> (b: bool)
    ensures
        b == is_name_char(c),
{
    if c == '_' {
        true
    } else if (c as u32) < 128 {
        (c >= 'a' && c <= 'z') || (c >= 'A' && c <= 'Z') || (c >= '0' && c <= '9')
    } else {
        is_alphanumeric(c)
    }
}

/// Says of each character of `code` whether it may stand in a name.
pub fn name_characters(code: &[char]) -> (word: Vec<bool>)
    ensures
        word@ == word_flags(code@),
{
    let n = code.len();
    let mut word: Vec<bool> = Vec::new();
    let mut i: usize = 0;
    while i < n
        invariant
            n == code@.len(),
            i <= n,
            word@ == word_flags(code@).take(i as int),
        decreases n - i,
    {
        let c = code[i];
        word.push(is_name_character(c));
        i += 1;
    }
    word
}

/// Extracts the names of the token kinds that action code refers to: each
/// text `TokenKind::Name` gives `Name`. The kinds `Unknown` and `Eof` are
/// left out, and no name comes twice.
pub fn extract_custom_tokens(action_code: &str) -> (names: Vec<String>)
    ensures
        texts_of(names@) == referenced_kinds(action_code@),
{
    let code = chars_of(action_code);
    let word = name_characters(code.as_slice());
    scan_kind_names(code.as_slice(), word.as_slice())
}

/// Whether the name of `rule` is a token kind of its own: the rule has a
/// name, runs no action, and is not named like a kind that every tokenizer
/// has.
pub open spec fn names_kind(rule: RuleView) -> bool {
    rule.action_code is None && rule.name.len() > 0 && !is_builtin_kind(rule.name)
}

/// The names of the rules that name a kind, in the order of the rules.
pub open spec fn rule_names(rules: Seq<RuleView>) -> Seq<Seq<char>>
    decreases rules.len(),
{
    if rules.len() == 0 {
        Seq::empty()
    } else if names_kind(rules.last()) {
        rule_names(rules.drop_last()).push(rules.last().name)
    } else {
        rule_names(rules.drop_last())
    }
}

/// The declared names but those of the kinds that every tokenizer has.
pub open spec fn declared_names(tokens: Seq<Seq<char>>) -> Seq<Seq<char>>
    decreases tokens.len(),
{
    if tokens.len() == 0 {
        Seq::empty()
    } else if !is_builtin_kind(tokens.last()) {
        declared_names(tokens.drop_last()).push(tokens.last())
    } else {
        declared_names(tokens.drop_last())
    }
}

/// The kinds that the action code of `rule` refers to.
pub open spec fn rule_references(rule: RuleView) -> Seq<Seq<char>> {
    match rule.action_code {
        Some(code) => referenced_kinds(code),
        None => Seq::empty(),
    }
}

/// The kinds that the action code of the rules refers to, rule by rule.
pub open spec fn snippet_names(rules: Seq<RuleView>) -> Seq<Seq<char>>
    decreases rules.len(),
{
    if rules.len() == 0 {
        Seq::empty()
    } else {
        snippet_names(rules.drop_last()) + rule_references(rules.last())
    }
}

/// The token kinds of a specification: the names of its rules, then the
/// declared names, then the names that action code refers to; each once, at
/// the place of its first occurrence.
pub open spec fn token_kinds(spec: SpecView) -> Seq<Seq<char>> {
    distinct(
        rule_names(spec.rules) + declared_names(spec.custom_tokens) + snippet_names(spec.rules),
    )
}

/// Each name of `distinct(names)` is a name of `names`, and the other way
/// round.
pub proof fn lemma_distinct_same_names(names: Seq<Seq<char>>, name: Seq<char>)
    ensures
        distinct(names).contains(name) <==> names.contains(name),
    decreases names.len(),
{
    if names.len() > 0 {
        let front = names.drop_last();
        lemma_distinct_same_names(front, name);
        let d = distinct(front);
        if names.contains(name) {
            let i = choose|i: int| 0 <= i < names.len() && names[i] == name;
            if i < names.len() - 1 {
                assert(front[i] == name);
                assert(d.contains(name));
                if !d.contains(names.last()) {
                    let j = choose|j: int| 0 <= j < d.len() && d[j] == name;
                    assert(d.push(names.last())[j] == name);
                }
            } else {
                if !d.contains(names.last()) {
                    assert(d.push(names.last())[d.len() as int] == name);
                }
            }
        }
        if distinct(names).contains(name) {
            let j = choose|j: int| 0 <= j < distinct(names).len() && distinct(names)[j] == name;
            if j < d.len() {
                assert(d[j] == name);
                let i = choose|i: int| 0 <= i < front.len() && front[i] == name;
                assert(names[i] == name);
            } else {
                assert(names[names.len() - 1] == name);
            }
        }
    }
}

/// No name comes twice in `distinct(names)`.
pub proof fn lemma_distinct_no_duplicates(names: Seq<Seq<char>>)
    ensures
        distinct(names).no_duplicates(),
    decreases names.len(),
{
    if names.len() > 0 {
        lemma_distinct_no_duplicates(names.drop_last());
    }
}

/// A name that every tokenizer has is no name of `rule_names`.
pub proof fn lemma_rule_names_admitted(rules: Seq<RuleView>, name: Seq<char>)
    requires
        rule_names(rules).contains(name),
    ensures
        !is_builtin_kind(name),
        name.len() > 0,
    decreases rules.len(),
{
    if rules.len() > 0 {
        let front = rule_names(rules.drop_last());
        let i = choose|i: int| 0 <= i < rule_names(rules).len() && rule_names(rules)[i] == name;
        if !names_kind(rules.last()) || i != front.len() {
            assert(front[i] == name);
            lemma_rule_names_admitted(rules.drop_last(), name);
        }
    }
}

/// A name that every tokenizer has is no name of `declared_names`.
pub proof fn lemma_declared_names_admitted(tokens: Seq<Seq<char>>, name: Seq<char>)
    requires
        declared_names(tokens).contains(name),
    ensures
        !is_builtin_kind(name),
    decreases tokens.len(),
{
    if tokens.len() > 0 {
        let front = declared_names(tokens.drop_last());
        let i = choose|i: int|
            0 <= i < declared_names(tokens).len() && declared_names(tokens)[i] == name;
        if is_builtin_kind(tokens.last()) || i != front.len() {
            assert(front[i] == name);
            lemma_declared_names_admitted(tokens.drop_last(), name);
        }
    }
}

/// A name that every tokenizer has is no name of `kind_references`.
pub proof fn lemma_references_admitted(
    code: Seq<char>,
    word: Seq<bool>,
    from: int,
    name: Seq<char>,
)
    requires
        kind_references(code, word, from).contains(name),
    ensures
        !is_builtin_kind(name),
        name.len() > 0,
    decreases code.len() - from,
{
    if 0 <= from <= code.len() {
        match index_of(code.skip(from), KIND_MARKER@) {
            Some(i) => {
                reveal_strlit("TokenKind::");
                lemma_index_of_some(code.skip(from), KIND_MARKER@);
                let start = from + i + KIND_MARKER@.len();
                let first = code.subrange(start, run_end(code.len() as int, word, start));
                let all = kind_references(code, word, from);
                let k = choose|k: int| 0 <= k < all.len() && all[k] == name;
                if first.len() > 0 && !is_builtin_kind(first) {
                    if k > 0 {
                        lemma_references_admitted(code, word, start, name);
                    }
                } else {
                    lemma_references_admitted(code, word, start, name);
                }
            },
            None => {},
        }
    }
}

/// A name that every tokenizer has is no name of `snippet_names`.
pub proof fn lemma_snippet_names_admitted(rules: Seq<RuleView>, name: Seq<char>)
    requires
        snippet_names(rules).contains(name),
    ensures
        !is_builtin_kind(name),
    decreases rules.len(),
{
    if rules.len() > 0 {
        let front = snippet_names(rules.drop_last());
        let all = snippet_names(rules);
        let i = choose|i: int| 0 <= i < all.len() && all[i] == name;
        if i < front.len() {
            lemma_snippet_names_admitted(rules.drop_last(), name);
        } else {
            let code = rules.last().action_code->Some_0;
            lemma_distinct_same_names(kind_references(code, word_flags(code), 0), name);
            lemma_references_admitted(code, word_flags(code), 0, name);
        }
    }
}

/// The token kinds of a specification hold no name twice, and neither of the
/// two names that every tokenizer has, wherever those are written.
pub proof fn lemma_token_kinds_merged(spec: SpecView)
    ensures
        token_kinds(spec).no_duplicates(),
        !token_kinds(spec).contains(UNKNOWN_KIND@),
        !token_kinds(spec).contains(EOF_KIND@),
{
    let a = rule_names(spec.rules);
    let b = declared_names(spec.custom_tokens);
    let c = snippet_names(spec.rules);
    let all = a + b + c;
    lemma_distinct_no_duplicates(all);
    assert forall|name: Seq<char>| is_builtin_kind(name) implies !token_kinds(spec).contains(
        name,
    ) by {
        lemma_distinct_same_names(all, name);
        if all.contains(name) {
            let i = choose|i: int| 0 <= i < all.len() && all[i] == name;
            if i < a.len() {
                lemma_rule_names_admitted(spec.rules, name);
            } else if i < a.len() + b.len() {
                lemma_declared_names_admitted(spec.custom_tokens, name);
            } else {
                lemma_snippet_names_admitted(spec.rules, name);
            }
        }
    }
    assert(is_builtin_kind(UNKNOWN_KIND@) && is_builtin_kind(EOF_KIND@));
}

/// A name is a token kind of a specification exactly if a rule of it names
/// that kind, or it is declared and not one that every tokenizer has, or
/// action code of a rule refers to it.
pub proof fn lemma_token_kinds_sources(spec: SpecView, name: Seq<char>)
    ensures
        token_kinds(spec).contains(name) <==> (rule_names(spec.rules).contains(name)
            || declared_names(spec.custom_tokens).contains(name) || snippet_names(
            spec.rules,
        ).contains(name)),
{
    let a = rule_names(spec.rules);
    let b = declared_names(spec.custom_tokens);
    let c = snippet_names(spec.rules);
    let all = a + b + c;
    lemma_distinct_same_names(all, name);
    if all.contains(name) {
        let i = choose|i: int| 0 <= i < all.len() && all[i] == name;
        if i < a.len() {
            assert(a[i] == name);
        } else if i < a.len() + b.len() {
            assert(b[i - a.len()] == name);
        } else {
            assert(c[i - a.len() - b.len()] == name);
        }
    }
    if a.contains(name) {
        let i = choose|i: int| 0 <= i < a.len() && a[i] == name;
        assert(all[i] == name);
    }
    if b.contains(name) {
        let i = choose|i: int| 0 <= i < b.len() && b[i] == name;
        assert(all[a.len() + i] == name);
    }
    if c.contains(name) {
        let i = choose|i: int| 0 <= i < c.len() && c[i] == name;
        assert(all[a.len() + b.len() + i] == name);
    }
}

/// Collects the token kinds of a specification.
pub fn collect_token_kinds(spec: &LexerSpec) -> (kinds: Vec<String>)
    ensures
        texts_of(kinds@) == token_kinds(spec@),
{
    let mut kinds: Vec<String> = Vec::new();
    let ghost rules = rule_views(spec.rules@);
    let ghost tokens = texts_of(spec.custom_tokens@);
    let ghost mut seen: Seq<Seq<char>> = Seq::empty();
    let n = spec.rules.len();
    let mut i: usize = 0;
    while i < n
        invariant
            n == spec.rules@.len(),
            rules == rule_views(spec.rules@),
            i <= n,
            texts_of(kinds@) == distinct(seen),
            seen == rule_names(rules.take(i as int)),
        decreases n - i,
    {
        let rule = &spec.rules[i];
        proof {
            assert(rules.take(i + 1).drop_last() =~= rules.take(i as int));
        }
        if rule.action_code.is_none() && !rule.name.as_str().is_empty() && !is_builtin(
            &rule.name,
        ) {
            proof {
                assert(seen.push(rule.name@).drop_last() =~= seen);
                seen = seen.push(rule.name@);
            }
            add_name(&mut kinds, rule.name.clone());
        }
        i += 1;
    }
    assert(rules.take(n as int) =~= rules);
    let ghost named = seen;
    let m = spec.custom_tokens.len();
    let mut j: usize = 0;
    while j < m
        invariant
            m == spec.custom_tokens@.len(),
            tokens == texts_of(spec.custom_tokens@),
            j <= m,
            texts_of(kinds@) == distinct(seen),
            seen == named + declared_names(tokens.take(j as int)),
        decreases m - j,
    {
        let token = &spec.custom_tokens[j];
        proof {
            assert(tokens.take(j + 1).drop_last() =~= tokens.take(j as int));
        }
        if !is_builtin(token) {
            proof {
                assert(seen.push(token@).drop_last() =~= seen);
                seen = seen.push(token@);
            }
            add_name(&mut kinds, token.clone());
        }
        j += 1;
    }
    assert(tokens.take(m as int) =~= tokens);
    let ghost declared = seen;
    let mut k: usize = 0;
    while k < n
        invariant
            n == spec.rules@.len(),
            rules == rule_views(spec.rules@),
            k <= n,
            texts_of(kinds@) == distinct(seen),
            seen == declared + snippet_names(rules.take(k as int)),
        decreases n - k,
    {
        let rule = &spec.rules[k];
        proof {
            assert(rules.take(k + 1).drop_last() =~= rules.take(k as int));
        }
        match &rule.action_code {
            Some(code) => {
                let refs = extract_custom_tokens(code.as_str());
                let ghost before = seen;
                let r = refs.len();
                let mut x: usize = 0;
                while x < r
                    invariant
                        r == refs@.len(),
                        x <= r,
                        texts_of(kinds@) == distinct(seen),
                        seen == before + texts_of(refs@).take(x as int),
                    decreases r - x,
                {
                    proof {
                        assert(seen.push(refs@[x as int]@).drop_last() =~= seen);
                        seen = seen.push(refs@[x as int]@);
                    }
                    add_name(&mut kinds, refs[x].clone());
                    x += 1;
                }
            },
            None => {
            },
        }
        k += 1;
    }
    kinds
}

} // verus!
