//! The pattern of a rule: how one token's surface form is recognised.

use vstd::prelude::*;
use vstd::slice::slice_subrange;
use crate::error::ParseError;
use crate::text::{
    char_at, chars_of, find_char, index_of, lemma_index_of_some, lemma_trim_len, string_of,
    trim, trimmed,
};

verus! {

/// How a rule recognises its token.
#[derive(Debug)]
pub enum RulePattern {
    /// One fixed character, written `'c'`.
    CharLiteral(char),
    /// One fixed string, written `"string"`.
    StringLiteral(String),
    /// A pattern of the matching engine, used as it stands.
    Regex(String),
    /// A bracket expression that is no plain range, kept as engine text.
    CharSet(String),
    /// A range of characters, matched one or more times: `[a-z]+`.
    CharRangeMatch1(char, char),
    /// A range of characters, matched zero or more times: `[a-z]*`.
    CharRangeMatch0(char, char),
    /// Ordered alternation among patterns: `(a|b)`.
    Choice(Vec<RulePattern>),
    /// One fixed character, written with a backslash: `\+`, `\n`.
    EscapedChar(char),
    /// Any one character but a line feed: `?`.
    AnyChar,
    /// One or more characters, none a line feed: `?+`.
    AnyCharPlus,
}

/// The mathematical value of a [`RulePattern`].
pub enum PatternView {
    CharLiteral(char),
    StringLiteral(Seq<char>),
    Regex(Seq<char>),
    CharSet(Seq<char>),
    CharRangeMatch1(char, char),
    CharRangeMatch0(char, char),
    Choice(Seq<PatternView>),
    EscapedChar(char),
    AnyChar,
    AnyCharPlus,
}

impl View for RulePattern {
    type V = PatternView;

    open spec fn view(&self) -> PatternView
        decreases self,
    {
        match self {
            RulePattern::CharLiteral(c) => PatternView::CharLiteral(*c),
            RulePattern::StringLiteral(s) => PatternView::StringLiteral(s@),
            RulePattern::Regex(s) => PatternView::Regex(s@),
            RulePattern::CharSet(s) => PatternView::CharSet(s@),
            RulePattern::CharRangeMatch1(lo, hi) => PatternView::CharRangeMatch1(*lo, *hi),
            RulePattern::CharRangeMatch0(lo, hi) => PatternView::CharRangeMatch0(*lo, *hi),
            RulePattern::Choice(alts) => PatternView::Choice(views_of(*alts)),
            RulePattern::EscapedChar(c) => PatternView::EscapedChar(*c),
            RulePattern::AnyChar => PatternView::AnyChar,
            RulePattern::AnyCharPlus => PatternView::AnyCharPlus,
        }
    }
}

/// The values of the patterns in `alts`, in order.
pub open spec fn views_of(alts: Vec<RulePattern>) -> Seq<PatternView>
    decreases alts,
{
    Seq::new(
        alts@.len(),
        |i: int|
            if 0 <= i < alts@.len() {
                alts@[i].view()
            } else {
                PatternView::AnyChar
            },
    )
}

impl Clone for RulePattern {
    fn clone(&self) -> (out: Self)
        ensures
            out@ == self@,
        decreases self,
    {
        match self {
            RulePattern::CharLiteral(c) => RulePattern::CharLiteral(*c),
            RulePattern::StringLiteral(s) => RulePattern::StringLiteral(s.clone()),
            RulePattern::Regex(s) => RulePattern::Regex(s.clone()),
            RulePattern::CharSet(s) => RulePattern::CharSet(s.clone()),
            RulePattern::CharRangeMatch1(lo, hi) => RulePattern::CharRangeMatch1(*lo, *hi),
            RulePattern::CharRangeMatch0(lo, hi) => RulePattern::CharRangeMatch0(*lo, *hi),
            RulePattern::Choice(alts) => {
                let mut copies: Vec<RulePattern> = Vec::new();
                let mut i: usize = 0;
                while i < alts.len()
                    invariant
                        *self == RulePattern::Choice(*alts),
                        i <= alts.len(),
                        copies@.len() == i,
                        forall|j: int| 0 <= j < i ==> copies@[j]@ == alts@[j]@,
                    decreases alts.len() - i,
                {
                    proof {
                        assert(self->Choice_0 == *alts);
                    }
                    copies.push(alts[i].clone());
                    i += 1;
                }
                assert(views_of(copies) =~= views_of(*alts));
                RulePattern::Choice(copies)
            },
            RulePattern::EscapedChar(c) => RulePattern::EscapedChar(*c),
            RulePattern::AnyChar => RulePattern::AnyChar,
            RulePattern::AnyCharPlus => RulePattern::AnyCharPlus,
        }
    }
}

/// The character that a letter behind a backslash stands for: `n`, `t` and
/// `r` stand for line feed, tabulator and carriage return, every other
/// character for itself.
pub open spec fn unescaped(c: char) -> char {
    if c == 'n' {
        '\n'
    } else if c == 't' {
        '\t'
    } else if c == 'r' {
        '\r'
    } else {
        c
    }
}

/// The value of a hexadecimal digit.
pub open spec fn hex_digit_value(c: char) -> Option<int> {
    if '0' <= c <= '9' {
        Some(c as int - '0' as int)
    } else if 'a' <= c <= 'f' {
        Some(c as int - 'a' as int + 10)
    } else if 'A' <= c <= 'F' {
        Some(c as int - 'A' as int + 10)
    } else {
        None
    }
}

/// The number that `s` writes in hexadecimal digits, if it is one or more
/// such digits and nothing else.
pub open spec fn hex_value(s: Seq<char>) -> Option<int>
    decreases s.len(),
{
    if s.len() == 0 {
        None
    } else {
        match hex_digit_value(s.last()) {
            Some(d) => if s.len() == 1 {
                Some(d)
            } else {
                match hex_value(s.drop_last()) {
                    Some(v) => Some(16 * v + d),
                    None => None,
                }
            },
            None => None,
        }
    }
}

/// Whether `n` is the code of a character.
pub open spec fn is_scalar_value(n: int) -> bool {
    0 <= n <= 0xD7FF || 0xE000 <= n <= 0x10FFFF
}

/// The character that one end of a range names: written `\u{..}` with its
/// code in hexadecimal digits, `\x..` with two hexadecimal digits, or as the
/// character itself.
pub open spec fn range_endpoint(s: Seq<char>) -> Option<char> {
    if seq!['\\', 'u', '{'].is_prefix_of(s) && s.last() == '}' {
        match hex_value(s.subrange(3, s.len() - 1)) {
            Some(v) => if is_scalar_value(v) {
                Some(v as char)
            } else {
                None
            },
            None => None,
        }
    } else if seq!['\\', 'x'].is_prefix_of(s) && s.len() == 4 {
        match hex_value(s.subrange(2, 4)) {
            Some(v) => Some(v as char),
            None => None,
        }
    } else if s.len() == 1 {
        Some(s[0])
    } else {
        None
    }
}

/// The two ends of the range that the text between brackets writes: the
/// texts before and behind its first dash, where both name a character.
pub open spec fn range_bounds(inside: Seq<char>) -> Option<(char, char)> {
    match index_of(inside, seq!['-']) {
        Some(dash) => match range_endpoint(inside.take(dash)) {
            Some(lo) => match range_endpoint(inside.skip(dash + 1)) {
                Some(hi) => Some((lo, hi)),
                None => None,
            },
            None => None,
        },
        None => None,
    }
}

/// The pattern of a bracket expression `t`: a range with its quantifier where
/// the text up to the first closing bracket writes a range and `+` or `*`
/// alone stands behind that bracket; else the whole of `t` as a character
/// set.
pub open spec fn bracket_pattern(t: Seq<char>) -> PatternView {
    match index_of(t, seq![']']) {
        Some(close) => match range_bounds(t.subrange(1, close)) {
            Some(bounds) => if t.skip(close + 1) == seq!['+'] {
                PatternView::CharRangeMatch1(bounds.0, bounds.1)
            } else if t.skip(close + 1) == seq!['*'] {
                PatternView::CharRangeMatch0(bounds.0, bounds.1)
            } else {
                PatternView::CharSet(t)
            },
            None => PatternView::CharSet(t),
        },
        None => PatternView::CharSet(t),
    }
}

/// Whether `t` stands between the character `open` and the character
/// `close`.
pub open spec fn is_enclosed(t: Seq<char>, open: char, close: char) -> bool {
    t.len() >= 2 && t[0] == open && t.last() == close
}

/// `t` without its first and its last character.
pub open spec fn inner(t: Seq<char>) -> Seq<char> {
    t.subrange(1, t.len() - 1)
}

/// By how much the character `c` changes the number of open parentheses.
pub open spec fn depth_step(c: char) -> int {
    if c == '(' {
        1
    } else if c == ')' {
        -1
    } else {
        0
    }
}

/// The position of the first top-level bar of `s` at or behind `from`,
/// where `depth` parentheses are open at `from`. A bar is top-level where no
/// parenthesis is open: parentheses behind `from` that were opened have been
/// closed again, and none was closed that had not been opened.
pub open spec fn top_bar(s: Seq<char>, from: int, depth: int) -> Option<int>
    decreases s.len() - from,
{
    if from < 0 || from >= s.len() || depth < 0 {
        None
    } else if s[from] == '|' && depth == 0 {
        Some(from)
    } else {
        top_bar(s, from + 1, depth + depth_step(s[from]))
    }
}

/// A top-level bar is a bar of the text, at or behind the start.
pub proof fn lemma_top_bar(s: Seq<char>, from: int, depth: int)
    ensures
        top_bar(s, from, depth) matches Some(i) ==> from <= i < s.len() && s[i] == '|',
    decreases s.len() - from,
{
    if 0 <= from < s.len() && depth >= 0 && !(s[from] == '|' && depth == 0) {
        lemma_top_bar(s, from + 1, depth + depth_step(s[from]));
    }
}

/// The pieces of `s` behind `from` between its top-level bars: one piece
/// more than there are such bars. A bar inside parentheses divides nothing.
pub open spec fn top_pieces(s: Seq<char>, from: int) -> Seq<Seq<char>>
    decreases s.len() - from,
{
    match top_bar(s, from, 0) {
        Some(bar) => {
            proof {
                lemma_top_bar(s, from, 0);
            }
            seq![s.subrange(from, bar)] + top_pieces(s, bar + 1)
        },
        None => seq![s.subrange(from, s.len() as int)],
    }
}

/// No piece is longer than the text.
pub proof fn lemma_top_pieces(s: Seq<char>, from: int)
    requires
        0 <= from <= s.len(),
    ensures
        forall|k: int|
            0 <= k < top_pieces(s, from).len() ==> (#[trigger] top_pieces(s, from)[k]).len()
                <= s.len(),
    decreases s.len() - from,
{
    if let Some(bar) = top_bar(s, from, 0) {
        lemma_top_bar(s, from, 0);
        lemma_top_pieces(s, bar + 1);
        assert forall|k: int| 0 <= k < top_pieces(s, from).len() implies (#[trigger] top_pieces(
            s,
            from,
        )[k]).len() <= s.len() by {
            if k > 0 {
                assert(top_pieces(s, from)[k] == top_pieces(s, bar + 1)[k - 1]);
            }
        }
    }
}

/// Whether the parentheses of `s` behind `from` pair up, where `depth` of
/// them are open at `from`: each one that is closed was opened before, and
/// none is left open at the end.
pub open spec fn pairs_up(s: Seq<char>, from: int, depth: int) -> bool
    decreases s.len() - from,
{
    if depth < 0 {
        false
    } else if from < 0 || from >= s.len() {
        depth == 0
    } else {
        pairs_up(s, from + 1, depth + depth_step(s[from]))
    }
}

/// Whether `t` is a group: it stands between two parentheses that belong
/// together, so that the first is closed by the last and by none before it.
pub open spec fn is_group(t: Seq<char>) -> bool {
    is_enclosed(t, '(', ')') && pairs_up(inner(t), 0, 0)
}

/// The alternatives of the group `t`: the pieces between the top-level bars
/// of the text between its parentheses.
pub open spec fn alternatives(t: Seq<char>) -> Seq<Seq<char>> {
    top_pieces(inner(t), 0)
}

/// The pattern that `t` writes in one of the fixed forms, if it has one:
/// `?+` and `?`; a backslash and one character; one character between single
/// quotes; text between double quotes, taken as it is; text between slashes.
pub open spec fn fixed_pattern(t: Seq<char>) -> Option<PatternView> {
    if t == seq!['?', '+'] {
        Some(PatternView::AnyCharPlus)
    } else if t == seq!['?'] {
        Some(PatternView::AnyChar)
    } else if t.len() == 2 && t[0] == '\\' {
        Some(PatternView::EscapedChar(unescaped(t[1])))
    } else if t.len() == 3 && t[0] == '\'' && t[2] == '\'' {
        Some(PatternView::CharLiteral(t[1]))
    } else if is_enclosed(t, '"', '"') {
        Some(PatternView::StringLiteral(inner(t)))
    } else if is_enclosed(t, '/', '/') {
        Some(PatternView::Regex(inner(t)))
    } else {
        None
    }
}

/// A text between parentheses is a pattern of the matching engine as a
/// whole where it holds no top-level bar, also where bars stand inside inner
/// parentheses, and where its first parenthesis is not closed by its last.
pub proof fn lemma_nested_bars_divide_nothing(input: Seq<char>)
    requires
        is_enclosed(trim(input), '(', ')'),
        top_bar(inner(trim(input)), 0, 0) is None || !pairs_up(inner(trim(input)), 0, 0),
    ensures
        pattern_of(input) == PatternView::Regex(trim(input)),
{
    let t = trim(input);
    assert(t[0] == '(');
    assert(t != seq!['?', '+']) by {
        if t == seq!['?', '+'] {
            assert(t[0] == '?');
        }
    }
    assert(t != seq!['?']) by {
        if t == seq!['?'] {
            assert(t[0] == '?');
        }
    }
}

/// Whether `t` is a bracket expression: it begins with an opening bracket
/// and holds a closing one.
pub open spec fn is_bracketed(t: Seq<char>) -> bool {
    t.len() > 0 && t[0] == '[' && index_of(t, seq![']']) is Some
}

/// Whether `t` is a choice: it is a group, and the text between its
/// parentheses holds a top-level bar.
pub open spec fn is_choice(t: Seq<char>) -> bool {
    is_group(t) && top_bar(inner(t), 0, 0) is Some
}

/// The pattern that the text `input` writes. The forms are tried in this
/// order on the text without the white space around it, and the first that
/// fits is taken: the fixed forms; a bracket expression; a group with at
/// least one top-level bar, whose alternatives are each read in the same way;
/// and last, the whole text as a pattern of the matching engine. So a group
/// whose bars all stand inside inner parentheses is a pattern of the engine
/// as a whole, and so is a text whose first parenthesis is closed before its
/// end.
pub open spec fn pattern_of(input: Seq<char>) -> PatternView
    decreases input.len(),
{
    let t = trim(input);
    if fixed_pattern(t) is Some {
        fixed_pattern(t)->Some_0
    } else if is_bracketed(t) {
        bracket_pattern(t)
    } else if is_choice(t) {
        let parts = alternatives(t);
        proof {
            lemma_trim_len(input);
            lemma_top_pieces(inner(t), 0);
        }
        PatternView::Choice(
            Seq::new(
                parts.len(),
                |k: int|
                    if 0 <= k < parts.len() {
                        pattern_of(parts[k])
                    } else {
                        PatternView::AnyChar
                    },
            ),
        )
    } else {
        PatternView::Regex(t)
    }
}

/// The character with the code `code`, where there is one:
/// `char::from_u32`, which gives a character for every code but those from
/// D800 to DFFF and those above 10FFFF.
#[verifier::external_body]
pub(crate) fn char_of_code(code: u32) -> (c: Option<char>)
    ensures
        c == (if is_scalar_value(code as int) {
            Some(code as char)
        } else {
            None::<char>
        }),
{
    char::from_u32(code)
}

/// Reads one hexadecimal digit.
pub fn hex_digit(c: char) -> (d: Option<u32>)
    ensures
        match d {
            Some(d) => hex_digit_value(c) == Some(d as int) && d < 16,
            None => hex_digit_value(c) is None,
        },
{
    if c >= '0' && c <= '9' {
        Some(c as u32 - '0' as u32)
    } else if c >= 'a' && c <= 'f' {
        Some(c as u32 - 'a' as u32 + 10)
    } else if c >= 'A' && c <= 'F' {
        Some(c as u32 - 'A' as u32 + 10)
    } else {
        None
    }
}

/// The largest code of a character.
pub const MAX_CODE: u32 = 0x10FFFF;

/// A number in hexadecimal digits is not negative.
pub proof fn lemma_hex_value_nonnegative(s: Seq<char>)
    ensures
        hex_value(s) matches Some(v) ==> v >= 0,
    decreases s.len(),
{
    if s.len() > 1 {
        lemma_hex_value_nonnegative(s.drop_last());
    }
}

/// Reads a number in hexadecimal digits. A number above the largest code of
/// a character is given as one more than that code.
pub fn read_hex(s: &[char]) -> (r: Option<u32>)
    ensures
        match r {
            Some(v) => v <= MAX_CODE + 1 && (match hex_value(s@) {
                Some(exact) => if exact <= MAX_CODE {
                    v == exact
                } else {
                    v == MAX_CODE + 1
                },
                None => false,
            }),
            None => hex_value(s@) is None,
        },
{
    let n = s.len();
    if n == 0 {
        return None;
    }
    let mut v: u32 = 0;
    let mut i: usize = 0;
    while i < n
        invariant
            n == s@.len(),
            i <= n,
            v <= MAX_CODE + 1,
            i == 0 ==> v == 0,
            i > 0 ==> (match hex_value(s@.take(i as int)) {
                Some(exact) => if exact <= MAX_CODE {
                    v == exact
                } else {
                    v == MAX_CODE + 1
                },
                None => false,
            }),
        decreases n - i,
    {
        proof {
            assert(s@.take(i + 1).drop_last() =~= s@.take(i as int));
        }
        match hex_digit(s[i]) {
            Some(d) => {
                if v > MAX_CODE {
                    v = MAX_CODE + 1;
                } else {
                    let next = v * 16 + d;
                    v = if next > MAX_CODE {
                        MAX_CODE + 1
                    } else {
                        next
                    };
                }
            },
            None => {
                proof {
                    lemma_hex_value_rejects(s@, i as int);
                }
                return None;
            },
        }
        i += 1;
    }
    assert(s@.take(n as int) =~= s@);
    Some(v)
}

/// A text with a character that is no hexadecimal digit writes no number.
pub proof fn lemma_hex_value_rejects(s: Seq<char>, i: int)
    requires
        0 <= i < s.len(),
        hex_digit_value(s[i]) is None,
    ensures
        hex_value(s) is None,
    decreases s.len(),
{
    if i < s.len() - 1 {
        lemma_hex_value_rejects(s.drop_last(), i);
    }
}

/// Reads one end of a range.
pub fn read_endpoint(s: &[char]) -> (c: Option<char>)
    ensures
        c == range_endpoint(s@),
{
    let n = s.len();
    if n >= 4 && s[0] == '\\' && s[1] == 'u' && s[2] == '{' && s[n - 1] == '}' {
        assert(seq!['\\', 'u', '{'] =~= s@.subrange(0, 3));
        match read_hex(slice_subrange(s, 3, n - 1)) {
            Some(v) => char_of_code(v),
            None => None,
        }
    } else if n == 4 && s[0] == '\\' && s[1] == 'x' {
        assert(seq!['\\', 'x'] =~= s@.subrange(0, 2));
        assert(!(seq!['\\', 'u', '{'].is_prefix_of(s@) && s@.last() == '}')) by {
            if seq!['\\', 'u', '{'].is_prefix_of(s@) {
                assert(s@.subrange(0, 3)[1] == 'u');
            }
        }
        let ghost digits = s@.subrange(2, 4);
        match read_hex(slice_subrange(s, 2, 4)) {
            Some(v) => {
                proof {
                    assert(digits.drop_last().len() == 1);
                    assert(hex_value(digits.drop_last()) is Some);
                    assert(v < 256);
                }
                let byte = v as u8;
                Some(byte as char)
            },
            None => None,
        }
    } else {
        proof {
            if seq!['\\', 'u', '{'].is_prefix_of(s@) && s@.last() == '}' {
                assert(s@.subrange(0, 3)[0] == '\\');
                assert(s@.subrange(0, 3)[1] == 'u');
                assert(s@.subrange(0, 3)[2] == '{');
            }
            if seq!['\\', 'x'].is_prefix_of(s@) && s@.len() == 4 {
                assert(s@.subrange(0, 2)[0] == '\\');
                assert(s@.subrange(0, 2)[1] == 'x');
            }
        }
        if n == 1 {
            Some(char_at(s, 0))
        } else {
            None
        }
    }
}

/// Reads the two ends of a range from the text between brackets.
pub fn read_range(inside: &[char]) -> (bounds: Option<(char, char)>)
    ensures
        bounds == range_bounds(inside@),
{
    match find_char(inside, '-') {
        Some(dash) => {
            proof {
                lemma_index_of_some(inside@, seq!['-']);
            }
            let n = inside.len();
            let before = slice_subrange(inside, 0, dash);
            let behind = slice_subrange(inside, dash + 1, n);
            match read_endpoint(before) {
                Some(lo) => match read_endpoint(behind) {
                    Some(hi) => Some((lo, hi)),
                    None => None,
                },
                None => None,
            }
        },
        None => None,
    }
}

/// Whether `s` is the one character `c`.
fn is_single(s: &[char], c: char) -> (b: bool)
    ensures
        b == (s@ == seq![c]),
{
    if s.len() == 1 && s[0] == c {
        assert(s@ =~= seq![c]);
        true
    } else {
        false
    }
}

/// The range from `lo` to `hi`, matched at least once or any number of
/// times.
fn char_range(lo: char, hi: char, at_least_once: bool) -> (p: RulePattern)
    ensures
        p@ == (if at_least_once {
            PatternView::CharRangeMatch1(lo, hi)
        } else {
            PatternView::CharRangeMatch0(lo, hi)
        }),
{
    if at_least_once {
        RulePattern::CharRangeMatch1(lo, hi)
    } else {
        RulePattern::CharRangeMatch0(lo, hi)
    }
}

/// Reads a bracket expression.
fn read_bracket(t: &[char]) -> (p: RulePattern)
    requires
        is_bracketed(t@),
    ensures
        p@ == bracket_pattern(t@),
{
    let n = t.len();
    match find_char(t, ']') {
        Some(close) => {
            proof {
                lemma_index_of_some(t@, seq![']']);
                assert(close >= 1) by {
                    if close == 0 {
                        assert(t@.skip(0).subrange(0, 1)[0] == t@[0]);
                    }
                }
            }
            let quantifier = slice_subrange(t, close + 1, n);
            match read_range(slice_subrange(t, 1, close)) {
                Some(bounds) => {
                    if is_single(quantifier, '+') {
                        char_range(bounds.0, bounds.1, true)
                    } else if is_single(quantifier, '*') {
                        char_range(bounds.0, bounds.1, false)
                    } else {
                        RulePattern::CharSet(string_of(t))
                    }
                },
                None => RulePattern::CharSet(string_of(t)),
            }
        },
        None => RulePattern::CharSet(string_of(t)),
    }
}

/// Reads a pattern in one of the fixed forms.
pub fn read_fixed(t: &[char]) -> (r: Option<RulePattern>)
    ensures
        match r {
            Some(p) => fixed_pattern(t@) == Some(p@),
            None => fixed_pattern(t@) is None,
        },
{
    let n = t.len();
    if n == 2 && t[0] == '?' && t[1] == '+' {
        assert(t@ =~= seq!['?', '+']);
        return Some(RulePattern::AnyCharPlus);
    }
    if is_single(t, '?') {
        return Some(RulePattern::AnyChar);
    }
    if n == 2 && t[0] == '\\' {
        let c = char_at(t, 1);
        let actual = if c == 'n' {
            '\n'
        } else if c == 't' {
            '\t'
        } else if c == 'r' {
            '\r'
        } else {
            c
        };
        return Some(RulePattern::EscapedChar(actual));
    }
    if n == 3 && t[0] == '\'' && t[2] == '\'' {
        return Some(RulePattern::CharLiteral(char_at(t, 1)));
    }
    if n >= 2 && t[0] == '"' && t[n - 1] == '"' {
        return Some(RulePattern::StringLiteral(string_of(slice_subrange(t, 1, n - 1))));
    }
    if n >= 2 && t[0] == '/' && t[n - 1] == '/' {
        return Some(RulePattern::Regex(string_of(slice_subrange(t, 1, n - 1))));
    }
    None
}

/// The patterns of the texts `parts`, in order.
pub open spec fn patterns_of(parts: Seq<Seq<char>>) -> Seq<PatternView> {
    Seq::new(
        parts.len(),
        |k: int|
            if 0 <= k < parts.len() {
                pattern_of(parts[k])
            } else {
                PatternView::AnyChar
            },
    )
}

/// Finds the first top-level bar of `s` at or behind `from`.
pub fn find_top_bar(s: &[char], from: usize) -> (r: Option<usize>)
    requires
        from <= s@.len(),
    ensures
        match r {
            Some(bar) => top_bar(s@, from as int, 0) == Some(bar as int),
            None => top_bar(s@, from as int, 0) is None,
        },
{
    let n = s.len();
    let mut i: usize = from;
    let mut depth: usize = 0;
    while i < n
        invariant
            n == s@.len(),
            from <= i <= n,
            depth <= i - from,
            top_bar(s@, from as int, 0) == top_bar(s@, i as int, depth as int),
        decreases n - i,
    {
        let c = s[i];
        if c == '|' && depth == 0 {
            return Some(i);
        }
        if c == '(' {
            depth += 1;
        } else if c == ')' {
            if depth == 0 {
                assert(top_bar(s@, i + 1, -1) is None);
                return None;
            }
            depth -= 1;
        }
        i += 1;
    }
    None
}

/// Tests whether the parentheses of `s` pair up.
pub fn parentheses_pair_up(s: &[char]) -> (b: bool)
    ensures
        b == pairs_up(s@, 0, 0),
{
    let n = s.len();
    let mut i: usize = 0;
    let mut depth: usize = 0;
    while i < n
        invariant
            n == s@.len(),
            i <= n,
            depth <= i,
            pairs_up(s@, 0, 0) == pairs_up(s@, i as int, depth as int),
        decreases n - i,
    {
        let c = s[i];
        if c == '(' {
            depth += 1;
        } else if c == ')' {
            if depth == 0 {
                assert(!pairs_up(s@, i + 1, -1));
                return false;
            }
            depth -= 1;
        }
        i += 1;
    }
    depth == 0
}

/// Reads the alternatives of a choice from the text between its
/// parentheses.
fn read_alternatives(content: &[char]) -> (alts: Vec<RulePattern>)
    ensures
        views_of(alts) == patterns_of(top_pieces(content@, 0)),
    decreases content@.len(), 2nat,
{
    let ghost parts = top_pieces(content@, 0);
    let m = content.len();
    let mut alts: Vec<RulePattern> = Vec::new();
    let mut from: usize = 0;
    let ghost mut done: Seq<Seq<char>> = Seq::empty();
    assert(done + parts =~= parts);
    loop
        invariant_except_break
            m == content@.len(),
            from <= m,
            parts == done + top_pieces(content@, from as int),
            alts@.len() == done.len(),
            forall|k: int| 0 <= k < done.len() ==> (#[trigger] alts@[k])@ == pattern_of(done[k]),
        ensures
            alts@.len() == parts.len(),
            forall|k: int| 0 <= k < parts.len() ==> (#[trigger] alts@[k])@ == pattern_of(parts[k]),
        decreases m - from,
    {
        match find_top_bar(content, from) {
            Some(bar) => {
                proof {
                    lemma_top_bar(content@, from as int, 0);
                }
                let piece = slice_subrange(content, from, bar);
                let alt = read_pattern(piece);
                proof {
                    assert(done + (seq![piece@] + top_pieces(content@, bar + 1)) =~= done.push(
                        piece@,
                    ) + top_pieces(content@, bar + 1));
                    done = done.push(piece@);
                }
                alts.push(alt);
                from = bar + 1;
            },
            None => {
                let piece = slice_subrange(content, from, m);
                let alt = read_pattern(piece);
                proof {
                    assert(done + seq![piece@] =~= done.push(piece@));
                    done = done.push(piece@);
                }
                alts.push(alt);
                break ;
            },
        }
    }
    assert(views_of(alts) =~= patterns_of(parts));
    alts
}

/// Reads the pattern that the characters `input` write.
pub fn read_pattern(input: &[char]) -> (p: RulePattern)
    ensures
        p@ == pattern_of(input@),
    decreases input@.len(), 1nat,
{
    let t = trimmed(input);
    let n = t.len();
    proof {
        lemma_trim_len(input@);
    }
    match read_fixed(t) {
        Some(p) => {
            return p;
        },
        None => {},
    }
    if n > 0 && t[0] == '[' && find_char(t, ']').is_some() {
        return read_bracket(t);
    }
    if n >= 2 && t[0] == '(' && t[n - 1] == ')' {
        let content = slice_subrange(t, 1, n - 1);
        if parentheses_pair_up(content) && find_top_bar(content, 0).is_some() {
            let alts = read_alternatives(content);
            proof {
                assert(pattern_of(input@)->Choice_0 =~= patterns_of(alternatives(t@)));
            }
            return RulePattern::Choice(alts);
        }
    }
    RulePattern::Regex(string_of(t))
}

/// Parses the pattern of a rule. Every text writes a pattern, so the result
/// is never an error.
pub fn parse_pattern(input: &str) -> (r: Result<RulePattern, ParseError>)
    ensures
        r matches Ok(p) && p@ == pattern_of(input@),
{
    let chars = chars_of(input);
    Ok(read_pattern(chars.as_slice()))
}

} // verus!
