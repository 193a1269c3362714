//! How a pattern is matched: by comparing text directly where the pattern
//! allows it, through the matching engine where it does not; and how a
//! pattern is written for the engine and in generated code.

use vstd::prelude::*;
use crate::engine::{escape_regex, regex_escaped};
use crate::fragments;
use crate::pattern::{views_of, PatternView, RulePattern};
use crate::text::{append_decimal, decimal, lemma_decimal_injective, push_char};

verus! {

/// The places of generated code in which a text is written out. Each has its
/// own characters that cannot stand as they are.
#[derive(Clone, Copy, Debug)]
pub enum Quoting {
    /// In a line comment.
    Comment,
    /// Between single quotes, as a character.
    Character,
    /// Between double quotes, as a string.
    Text,
    /// Between double quotes, as a pattern that the engine reads once more.
    Pattern,
}

/// `c` as it is written at a place of generated code: line feed, tabulator
/// and carriage return by their letters except in a pattern, a backslash
/// doubled except in a comment, and a quote behind a backslash where the same
/// quote encloses the text.
pub open spec fn quoted_char(q: Quoting, c: char) -> Seq<char> {
    if c == '\n' && !(q is Pattern) {
        "\\n"@
    } else if c == '\t' && !(q is Pattern) {
        "\\t"@
    } else if c == '\r' && !(q is Pattern) {
        "\\r"@
    } else if c == '\\' && !(q is Comment) {
        "\\\\"@
    } else if c == '\'' && q is Character {
        "\\'"@
    } else if c == '"' && (q is Text || q is Pattern) {
        "\\\""@
    } else {
        seq![c]
    }
}

/// `s` as it is written at a place of generated code, character by character.
pub open spec fn quoted(q: Quoting, s: Seq<char>) -> Seq<char>
    decreases s.len(),
{
    if s.len() == 0 {
        Seq::empty()
    } else {
        quoted(q, s.drop_last()) + quoted_char(q, s.last())
    }
}

/// Appends `c` to `out` as it is written at the place `q`.
pub fn push_quoted(out: &mut String, q: Quoting, c: char)
    ensures
        final(out)@ == old(out)@ + quoted_char(q, c),
{
    let pattern = matches!(q, Quoting::Pattern);
    let comment = matches!(q, Quoting::Comment);
    let character = matches!(q, Quoting::Character);
    if c == '\n' && !pattern {
        out.append("\\n");
    } else if c == '\t' && !pattern {
        out.append("\\t");
    } else if c == '\r' && !pattern {
        out.append("\\r");
    } else if c == '\\' && !comment {
        out.append("\\\\");
    } else if c == '\'' && character {
        out.append("\\'");
    } else if c == '"' && !comment && !character {
        out.append("\\\"");
    } else {
        push_char(out, c);
    }
}

/// Writes `s` as it stands at the place `q` of generated code.
pub fn quote(q: Quoting, s: &str) -> (out: String)
    ensures
        out@ == quoted(q, s@),
{
    let mut out = String::new();
    for c in it: s.chars()
        invariant
            it.seq() == s@,
            out@ == quoted(q, s@.take(it.index())),
    {
        assert(s@.take(it.index() + 1).drop_last() =~= s@.take(it.index()));
        push_quoted(&mut out, q, c);
    }
    assert(s@.take(s@.len() as int) =~= s@);
    out
}

/// The string that holds the one character `c`.
pub fn char_string(c: char) -> (out: String)
    ensures
        out@ == seq![c],
{
    let mut out = String::new();
    push_char(&mut out, c);
    out
}

/// The pattern of the matching engine that recognises what `p` recognises.
/// Every pattern has one, whichever way it is matched in the end.
pub open spec fn regex_text(p: PatternView) -> Seq<char>
    decreases p,
{
    match p {
        PatternView::CharLiteral(c) => regex_escaped(seq![c]),
        PatternView::StringLiteral(s) => regex_escaped(s),
        PatternView::Regex(s) => s,
        PatternView::CharSet(s) => s,
        PatternView::CharRangeMatch1(lo, hi) => range_text(lo, hi) + "]+"@,
        PatternView::CharRangeMatch0(lo, hi) => range_text(lo, hi) + "]*"@,
        PatternView::Choice(alts) => "("@ + alternation(alts) + ")"@,
        PatternView::EscapedChar(c) => regex_escaped(seq![c]),
        PatternView::AnyChar => "."@,
        PatternView::AnyCharPlus => ".+"@,
    }
}

/// The range from `lo` to `hi` as the engine writes it, up to the closing
/// bracket. The ends stand for themselves, whatever they mean to the engine
/// otherwise.
pub open spec fn range_text(lo: char, hi: char) -> Seq<char> {
    "["@ + regex_escaped(seq![lo]) + "-"@ + regex_escaped(seq![hi])
}

/// The engine pattern `text` bound to the current place of the input: it
/// stands behind an anchor, and in a group of its own where it holds a bar,
/// so that the anchor binds each of its alternatives.
pub open spec fn anchored(text: Seq<char>) -> Seq<char> {
    if text.contains('|') {
        "^(?:"@ + text + ")"@
    } else {
        "^"@ + text
    }
}

/// The engine patterns of `alts`, in order, with `|` between them.
pub open spec fn alternation(alts: Seq<PatternView>) -> Seq<char>
    decreases alts,
{
    if alts.len() == 0 {
        Seq::empty()
    } else if alts.len() == 1 {
        regex_text(alts[0])
    } else {
        alternation(alts.drop_last()) + "|"@ + regex_text(alts.last())
    }
}

/// The engine pattern of a range of characters with its quantifier.
fn range_regex(lo: char, hi: char, quantifier: &str) -> (out: String)
    ensures
        out@ == range_text(lo, hi) + quantifier@,
{
    let low = char_string(lo);
    let high = char_string(hi);
    let mut out = String::from_str("[");
    out.append(escape_regex(low.as_str()).as_str());
    out.append("-");
    out.append(escape_regex(high.as_str()).as_str());
    out.append(quantifier);
    out
}

/// Whether `text` holds the character `c`.
fn holds(text: &str, c: char) -> (b: bool)
    ensures
        b == text@.contains(c),
{
    let mut found = false;
    for d in it: text.chars()
        invariant
            it.seq() == text@,
            found == text@.take(it.index()).contains(c),
    {
        proof {
            let before = text@.take(it.index());
            let after = text@.take(it.index() + 1);
            assert(after =~= before.push(d));
            if before.contains(c) {
                let i = choose|i: int| 0 <= i < before.len() && before[i] == c;
                assert(after[i] == c);
            }
            if d == c {
                assert(after[it.index()] == c);
            }
        }
        if d == c {
            found = true;
        }
    }
    assert(text@.take(text@.len() as int) =~= text@);
    found
}

/// Binds an engine pattern to the current place of the input.
pub fn anchor(text: &str) -> (out: String)
    ensures
        out@ == anchored(text@),
{
    if holds(text, '|') {
        let mut out = String::from_str("^(?:");
        out.append(text);
        out.append(")");
        out
    } else {
        let mut out = String::from_str("^");
        out.append(text);
        out
    }
}

/// Converts a pattern to the pattern of the matching engine that recognises
/// the same.
pub fn pattern_to_regex(pattern: &RulePattern) -> (out: String)
    ensures
        out@ == regex_text(pattern@),
    decreases pattern,
{
    match pattern {
        RulePattern::CharLiteral(c) => {
            let s = char_string(*c);
            escape_regex(s.as_str())
        },
        RulePattern::StringLiteral(s) => escape_regex(s.as_str()),
        RulePattern::Regex(s) => s.clone(),
        RulePattern::CharSet(s) => s.clone(),
        RulePattern::CharRangeMatch1(lo, hi) => range_regex(*lo, *hi, "]+"),
        RulePattern::CharRangeMatch0(lo, hi) => range_regex(*lo, *hi, "]*"),
        RulePattern::Choice(alts) => {
            let mut out = String::from_str("(");
            let n = alts.len();
            let mut i: usize = 0;
            while i < n
                invariant
                    *pattern == RulePattern::Choice(*alts),
                    n == alts@.len(),
                    i <= n,
                    out@ == "("@ + alternation(views_of(*alts).take(i as int)),
                decreases n - i,
            {
                proof {
                    assert(decreases_to!(*pattern => pattern->Choice_0));
                }
                let text = pattern_to_regex(&alts[i]);
                let ghost done = views_of(*alts).take(i as int);
                let ghost next = views_of(*alts).take(i + 1);
                assert(next.drop_last() =~= done);
                if i > 0 {
                    out.append("|");
                }
                out.append(text.as_str());
                i += 1;
            }
            assert(views_of(*alts).take(n as int) =~= views_of(*alts));
            out.append(")");
            out
        },
        RulePattern::EscapedChar(c) => {
            let s = char_string(*c);
            escape_regex(s.as_str())
        },
        RulePattern::AnyChar => String::from_str("."),
        RulePattern::AnyCharPlus => String::from_str(".+"),
    }
}

/// Whether `p` is matched through the matching engine. The other patterns
/// are matched by comparing text directly: one character, one string, any
/// character but a line feed, or a scan over a range that has to take at
/// least one character.
pub open spec fn needs_engine(p: PatternView) -> bool {
    match p {
        PatternView::CharLiteral(_) => false,
        PatternView::StringLiteral(_) => false,
        PatternView::EscapedChar(_) => false,
        PatternView::AnyChar => false,
        PatternView::CharRangeMatch1(_, _) => false,
        PatternView::Regex(_) => true,
        PatternView::CharSet(_) => true,
        PatternView::Choice(_) => true,
        PatternView::CharRangeMatch0(_, _) => true,
        PatternView::AnyCharPlus => true,
    }
}

/// The code that compares the input with the one character `c`.
pub open spec fn char_match_code(c: char) -> Seq<char> {
    fragments::CHAR_MATCH_OPEN@ + quoted_char(Quoting::Character, c) + fragments::CHAR_MATCH_CLOSE@
}

/// The key under which the compiled pattern of a rule is kept and looked
/// up: the position of the rule among the rules, in decimal digits. It
/// belongs to the rule alone, whatever the rule is named and whether it has
/// a name at all. In a parsed specification the position of a rule is its
/// number.
pub open spec fn cache_key(position: nat) -> Seq<char> {
    decimal(position)
}

/// Rules at different positions have different keys.
pub proof fn lemma_cache_keys_differ(a: nat, b: nat)
    requires
        a != b,
    ensures
        cache_key(a) != cache_key(b),
{
    if cache_key(a) == cache_key(b) {
        lemma_decimal_injective(a, b);
    }
}

/// The code that looks up the compiled pattern of the rule at `position`.
pub open spec fn engine_match_code(position: nat) -> Seq<char> {
    fragments::ENGINE_MATCH_OPEN@ + cache_key(position) + fragments::ENGINE_MATCH_CLOSE@
}

/// The code that tries `p` on the rest of the input, for the rule at
/// `position`: an expression for the matched text, if there is one.
pub open spec fn match_code(p: PatternView, position: nat) -> Seq<char> {
    match p {
        PatternView::CharLiteral(c) => char_match_code(c),
        PatternView::EscapedChar(c) => char_match_code(c),
        PatternView::StringLiteral(s) => fragments::STRING_MATCH_OPEN@ + quoted(Quoting::Text, s)
            + fragments::STRING_MATCH_YIELD@ + quoted(Quoting::Text, s)
            + fragments::STRING_MATCH_CLOSE@,
        PatternView::AnyChar => fragments::ANY_CHAR_MATCH@,
        PatternView::CharRangeMatch1(lo, hi) => fragments::RANGE_MATCH_OPEN@ + quoted_char(
            Quoting::Character,
            lo,
        ) + fragments::RANGE_MATCH_AND@ + quoted_char(Quoting::Character, hi)
            + fragments::RANGE_MATCH_CLOSE@,
        PatternView::Regex(_) => engine_match_code(position),
        PatternView::CharSet(_) => engine_match_code(position),
        PatternView::Choice(_) => engine_match_code(position),
        PatternView::CharRangeMatch0(_, _) => engine_match_code(position),
        PatternView::AnyCharPlus => engine_match_code(position),
    }
}

/// Decides how a pattern is matched: `true` where it needs the matching
/// engine.
pub fn requires_engine(pattern: &RulePattern) -> (b: bool)
    ensures
        b == needs_engine(pattern@),
{
    match pattern {
        RulePattern::CharLiteral(_) => false,
        RulePattern::StringLiteral(_) => false,
        RulePattern::EscapedChar(_) => false,
        RulePattern::AnyChar => false,
        RulePattern::CharRangeMatch1(_, _) => false,
        RulePattern::Regex(_) => true,
        RulePattern::CharSet(_) => true,
        RulePattern::Choice(_) => true,
        RulePattern::CharRangeMatch0(_, _) => true,
        RulePattern::AnyCharPlus => true,
    }
}

/// The code that compares the input with one character.
fn char_match(c: char) -> (out: String)
    ensures
        out@ == char_match_code(c),
{
    let mut out = String::from_str(fragments::CHAR_MATCH_OPEN);
    push_quoted(&mut out, Quoting::Character, c);
    out.append(fragments::CHAR_MATCH_CLOSE);
    out
}

/// The code that looks up the compiled pattern of the rule at `position`.
fn engine_match(position: usize) -> (out: String)
    ensures
        out@ == engine_match_code(position as nat),
{
    let mut out = String::from_str(fragments::ENGINE_MATCH_OPEN);
    append_decimal(&mut out, position);
    out.append(fragments::ENGINE_MATCH_CLOSE);
    out
}

/// Generates the code that tries a pattern on the rest of the input, and
/// says whether that code needs the matching engine. `position` is the
/// position of the pattern's rule among the rules: code that needs the engine
/// looks the compiled pattern up under the key of that position.
pub fn generate_pattern_match_code(pattern: &RulePattern, position: usize) -> (out: (
    String,
    bool,
))
    ensures
        out.0@ == match_code(pattern@, position as nat),
        out.1 == needs_engine(pattern@),
{
    match pattern {
        RulePattern::CharLiteral(c) => (char_match(*c), false),
        RulePattern::EscapedChar(c) => (char_match(*c), false),
        RulePattern::StringLiteral(s) => {
            let text = quote(Quoting::Text, s.as_str());
            let mut out = String::from_str(fragments::STRING_MATCH_OPEN);
            out.append(text.as_str());
            out.append(fragments::STRING_MATCH_YIELD);
            out.append(text.as_str());
            out.append(fragments::STRING_MATCH_CLOSE);
            (out, false)
        },
        RulePattern::AnyChar => (String::from_str(fragments::ANY_CHAR_MATCH), false),
        RulePattern::CharRangeMatch1(lo, hi) => {
            let mut out = String::from_str(fragments::RANGE_MATCH_OPEN);
            push_quoted(&mut out, Quoting::Character, *lo);
            out.append(fragments::RANGE_MATCH_AND);
            push_quoted(&mut out, Quoting::Character, *hi);
            out.append(fragments::RANGE_MATCH_CLOSE);
            (out, false)
        },
        RulePattern::Regex(_) => (engine_match(position), true),
        RulePattern::CharSet(_) => (engine_match(position), true),
        RulePattern::Choice(_) => (engine_match(position), true),
        RulePattern::CharRangeMatch0(_, _) => (engine_match(position), true),
        RulePattern::AnyCharPlus => (engine_match(position), true),
    }
}

} // verus!
