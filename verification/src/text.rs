//! Character-level text operations.
//!
//! Every operation is stated over `Seq<char>`, the view of a string, and
//! implemented over `&[char]` so that positions are character positions.

use vstd::prelude::*;
use vstd::slice::slice_subrange;

verus! {

/// Whether `c` is white space: the code points with the Unicode property
/// `White_Space`.
pub open spec fn is_space(c: char) -> bool {
    let n = c as int;
    ||| 0x09 <= n <= 0x0D
    ||| n == 0x20
    ||| n == 0x85
    ||| n == 0xA0
    ||| n == 0x1680
    ||| 0x2000 <= n <= 0x200A
    ||| n == 0x2028
    ||| n == 0x2029
    ||| n == 0x202F
    ||| n == 0x205F
    ||| n == 0x3000
}

/// `s` without its leading white space.
pub open spec fn trim_start(s: Seq<char>) -> Seq<char>
    decreases s.len(),
{
    if s.len() > 0 && is_space(s[0]) {
        trim_start(s.skip(1))
    } else {
        s
    }
}

/// `s` without its trailing white space.
pub open spec fn trim_end(s: Seq<char>) -> Seq<char>
    decreases s.len(),
{
    if s.len() > 0 && is_space(s.last()) {
        trim_end(s.drop_last())
    } else {
        s
    }
}

/// `s` without leading and trailing white space.
pub open spec fn trim(s: Seq<char>) -> Seq<char> {
    trim_end(trim_start(s))
}

/// The position of the first occurrence of `pat` in `s`, if there is one.
pub open spec fn index_of(s: Seq<char>, pat: Seq<char>) -> Option<int>
    decreases s.len(),
{
    if pat.is_prefix_of(s) {
        Some(0)
    } else if s.len() == 0 {
        None
    } else {
        match index_of(s.skip(1), pat) {
            Some(i) => Some(i + 1),
            None => None,
        }
    }
}

/// `s` with every occurrence of `pat` replaced by `with`, occurrences taken
/// from left to right without overlap. An empty `pat` occurs nowhere.
pub open spec fn replace_all(s: Seq<char>, pat: Seq<char>, with: Seq<char>) -> Seq<char>
    decreases s.len(),
{
    match index_of(s, pat) {
        Some(i) => if pat.len() > 0 {
            proof {
                lemma_index_of_some(s, pat);
            }
            s.take(i) + with + replace_all(s.skip(i + pat.len()), pat, with)
        } else {
            s
        },
        None => s,
    }
}

/// The pieces of `s` between the occurrences of `pat`, occurrences taken from
/// left to right without overlap: one piece more than there are occurrences.
/// An empty `pat` occurs nowhere.
pub open spec fn split(s: Seq<char>, pat: Seq<char>) -> Seq<Seq<char>>
    decreases s.len(),
{
    match index_of(s, pat) {
        Some(i) => if pat.len() > 0 {
            proof {
                lemma_index_of_some(s, pat);
            }
            seq![s.take(i)] + split(s.skip(i + pat.len()), pat)
        } else {
            seq![s]
        },
        None => seq![s],
    }
}

/// The number of occurrences of `pat` in `s`, taken from left to right
/// without overlap. An empty `pat` occurs nowhere.
pub open spec fn occurrences(s: Seq<char>, pat: Seq<char>) -> nat
    decreases s.len(),
{
    match index_of(s, pat) {
        Some(i) => if pat.len() > 0 {
            proof {
                lemma_index_of_some(s, pat);
            }
            1 + occurrences(s.skip(i + pat.len()), pat)
        } else {
            0
        },
        None => 0,
    }
}

/// The decimal digit for `d`.
pub open spec fn digit(d: nat) -> char {
    ('0' as nat + d) as char
}

/// The number `n` in decimal digits.
pub open spec fn decimal(n: nat) -> Seq<char>
    decreases n,
{
    if n < 10 {
        seq![digit(n)]
    } else {
        decimal(n / 10).push(digit(n % 10))
    }
}

/// A found position is a position of `pat`, and the first one.
pub proof fn lemma_index_of_some(s: Seq<char>, pat: Seq<char>)
    ensures
        index_of(s, pat) matches Some(i) ==> {
            &&& 0 <= i
            &&& i + pat.len() <= s.len()
            &&& pat.is_prefix_of(s.skip(i))
            &&& forall|j: int| 0 <= j < i ==> !pat.is_prefix_of(#[trigger] s.skip(j))
        },
    decreases s.len(),
{
    if !pat.is_prefix_of(s) && s.len() > 0 {
        lemma_index_of_some(s.skip(1), pat);
        if let Some(k) = index_of(s.skip(1), pat) {
            assert forall|j: int| 0 <= j < k + 1 implies !pat.is_prefix_of(
                #[trigger] s.skip(j),
            ) by {
                if j > 0 {
                    assert(s.skip(1).skip(j - 1) =~= s.skip(j));
                }
            }
        }
    }
}

/// The first position at which `pat` occurs is the one that is found.
pub proof fn lemma_index_of_first(s: Seq<char>, pat: Seq<char>, i: int)
    requires
        0 <= i <= s.len(),
        pat.is_prefix_of(s.skip(i)),
        forall|j: int| 0 <= j < i ==> !pat.is_prefix_of(#[trigger] s.skip(j)),
    ensures
        index_of(s, pat) == Some(i),
    decreases i,
{
    if i > 0 {
        assert(s.skip(0) =~= s);
        assert forall|j: int| 0 <= j < i - 1 implies !pat.is_prefix_of(
            #[trigger] s.skip(1).skip(j),
        ) by {
            assert(s.skip(1).skip(j) =~= s.skip(j + 1));
        }
        lemma_index_of_first(s.skip(1), pat, i - 1);
    }
}

/// Where `pat` occurs at no position, nothing is found.
pub proof fn lemma_index_of_absent(s: Seq<char>, pat: Seq<char>)
    requires
        forall|j: int| 0 <= j <= s.len() ==> !pat.is_prefix_of(#[trigger] s.skip(j)),
    ensures
        index_of(s, pat) is None,
{
    lemma_index_of_some(s, pat);
}

/// Trimming takes characters away, and none that is no white space.
pub proof fn lemma_trim_len(s: Seq<char>)
    ensures
        trim_start(s).len() <= s.len(),
        trim_end(s).len() <= s.len(),
        trim(s).len() <= s.len(),
    decreases s.len(),
{
    if s.len() > 0 {
        lemma_trim_len(s.skip(1));
        lemma_trim_len(s.drop_last());
    }
}

/// A text is split into at least one piece, and no piece is longer than the
/// text.
pub proof fn lemma_split_pieces(s: Seq<char>, pat: Seq<char>)
    ensures
        split(s, pat).len() >= 1,
        forall|k: int|
            0 <= k < split(s, pat).len() ==> (#[trigger] split(s, pat)[k]).len() <= s.len(),
    decreases s.len(),
{
    if let Some(i) = index_of(s, pat) {
        if pat.len() > 0 {
            lemma_index_of_some(s, pat);
            lemma_split_pieces(s.skip(i + pat.len()), pat);
        }
    }
}

/// A text has one piece more than it has occurrences of the pattern.
pub proof fn lemma_split_count(s: Seq<char>, pat: Seq<char>)
    ensures
        split(s, pat).len() == occurrences(s, pat) + 1,
    decreases s.len(),
{
    if let Some(i) = index_of(s, pat) {
        if pat.len() > 0 {
            lemma_index_of_some(s, pat);
            lemma_split_count(s.skip(i + pat.len()), pat);
        }
    }
}

/// A number has at least one digit.
pub proof fn lemma_decimal_len(n: nat)
    ensures
        decimal(n).len() >= 1,
        n >= 10 ==> decimal(n).len() >= 2,
    decreases n,
{
    if n >= 10 {
        lemma_decimal_len(n / 10);
    }
}

/// Different digits are different characters.
pub proof fn lemma_digit_injective(c: nat, d: nat)
    requires
        c < 10,
        d < 10,
        digit(c) == digit(d),
    ensures
        c == d,
{
    assert(digit(c) as nat == '0' as nat + c);
    assert(digit(d) as nat == '0' as nat + d);
}

/// Different numbers are written differently.
pub proof fn lemma_decimal_injective(a: nat, b: nat)
    requires
        decimal(a) == decimal(b),
    ensures
        a == b,
    decreases a,
{
    lemma_decimal_len(a);
    lemma_decimal_len(b);
    if a < 10 && b < 10 {
        assert(decimal(a)[0] == digit(a) && decimal(b)[0] == digit(b));
        lemma_digit_injective(a, b);
    } else if a >= 10 && b >= 10 {
        assert(decimal(a).last() == digit(a % 10) && decimal(b).last() == digit(b % 10));
        lemma_digit_injective(a % 10, b % 10);
        assert(decimal(a).drop_last() =~= decimal(a / 10));
        assert(decimal(b).drop_last() =~= decimal(b / 10));
        lemma_decimal_injective(a / 10, b / 10);
    } else if a < 10 {
        assert(decimal(a).len() == 1);
    } else {
        assert(decimal(b).len() == 1);
    }
}

/// Tests for white space.
pub fn is_whitespace(c: char) -> (b: bool)
    ensures
        b == is_space(c),
{
    let n: u32 = c as u32;
    (0x09 <= n && n <= 0x0D) || n == 0x20 || n == 0x85 || n == 0xA0 || n == 0x1680 || (0x2000 <= n
        && n <= 0x200A) || n == 0x2028 || n == 0x2029 || n == 0x202F || n == 0x205F || n == 0x3000
}

/// Whether `c` is a letter or a digit: what `char::is_alphanumeric` returns
/// for it, which takes tables of Unicode properties to state.
pub uninterp spec fn alphanumeric(c: char) -> bool;

/// Tests for a letter or a digit with `char::is_alphanumeric`, which goes by
/// the Unicode properties of the character alone.
#[verifier::external_body]
pub(crate) fn is_alphanumeric(c: char) -> (b: bool)
    ensures
        b == alphanumeric(c),
{
    c.is_alphanumeric()
}

/// The character at position `i` of `s`.
pub fn char_at(s: &[char], i: usize) -> (c: char)
    requires
        i < s@.len(),
    ensures
        c == s@[i as int],
{
    s[i]
}

/// The characters of a string, in order.
pub fn chars_of(s: &str) -> (out: Vec<char>)
    ensures
        out@ == s@,
{
    let mut out: Vec<char> = Vec::new();
    for c in it: s.chars()
        invariant
            it.seq() == s@,
            out@ == it.seq().take(it.index()),
    {
        out.push(c);
    }
    out
}

/// Appends one character to a string: `String::push`, which puts the
/// character behind those that the string holds.
#[verifier::external_body]
pub(crate) fn push_char(s: &mut String, c: char)
    ensures
        final(s)@ == old(s)@.push(c),
{
    s.push(c)
}

/// Appends the characters of `s` to `out`.
pub fn append_chars(out: &mut String, s: &[char])
    ensures
        final(out)@ == old(out)@ + s@,
{
    let n = s.len();
    let mut i: usize = 0;
    while i < n
        invariant
            n == s@.len(),
            i <= n,
            out@ == old(out)@ + s@.take(i as int),
        decreases n - i,
    {
        push_char(out, s[i]);
        i += 1;
    }
}

/// The string made of the characters of `s`.
pub fn string_of(s: &[char]) -> (out: String)
    ensures
        out@ == s@,
{
    let mut out = String::new();
    append_chars(&mut out, s);
    out
}

/// Whether `s` begins with `pat`.
pub fn starts_with(s: &[char], pat: &[char]) -> (b: bool)
    ensures
        b == pat@.is_prefix_of(s@),
{
    let m = pat.len();
    if m > s.len() {
        return false;
    }
    let mut i: usize = 0;
    while i < m
        invariant
            m == pat@.len(),
            m <= s@.len(),
            i <= m,
            forall|j: int| 0 <= j < i ==> pat@[j] == s@[j],
        decreases m - i,
    {
        if pat[i] != s[i] {
            return false;
        }
        i += 1;
    }
    true
}

/// The first position of `pat` in `s`.
pub fn find(s: &[char], pat: &[char]) -> (r: Option<usize>)
    ensures
        match r {
            Some(i) => index_of(s@, pat@) == Some(i as int),
            None => index_of(s@, pat@) is None,
        },
{
    let n = s.len();
    let m = pat.len();
    if m > n {
        proof {
            lemma_index_of_absent(s@, pat@);
        }
        return None;
    }
    let mut i: usize = 0;
    while i <= n - m
        invariant
            n == s@.len(),
            m == pat@.len(),
            m <= n,
            i <= n - m + 1,
            forall|j: int| 0 <= j < i ==> !pat@.is_prefix_of(#[trigger] s@.skip(j)),
        decreases n - m + 1 - i,
    {
        let rest = slice_subrange(s, i, n);
        if starts_with(rest, pat) {
            proof {
                lemma_index_of_first(s@, pat@, i as int);
            }
            return Some(i);
        }
        i += 1;
    }
    proof {
        lemma_index_of_absent(s@, pat@);
    }
    None
}

/// The first position of the character `c` in `s`.
pub fn find_char(s: &[char], c: char) -> (r: Option<usize>)
    ensures
        match r {
            Some(i) => index_of(s@, seq![c]) == Some(i as int),
            None => index_of(s@, seq![c]) is None,
        },
{
    let n = s.len();
    let ghost pat = seq![c];
    let mut i: usize = 0;
    while i < n
        invariant
            n == s@.len(),
            i <= n,
            pat == seq![c],
            forall|j: int| 0 <= j < i ==> !pat.is_prefix_of(#[trigger] s@.skip(j)),
        decreases n - i,
    {
        if s[i] == c {
            proof {
                lemma_index_of_first(s@, pat, i as int);
            }
            return Some(i);
        }
        proof {
            assert(s@.skip(i as int).subrange(0, 1)[0] == s@[i as int]);
        }
        i += 1;
    }
    proof {
        lemma_index_of_absent(s@, pat);
    }
    None
}

/// The part of `s` between its leading and its trailing white space.
pub fn trimmed(s: &[char]) -> (out: &[char])
    ensures
        out@ == trim(s@),
{
    let n = s.len();
    let mut lo: usize = 0;
    assert(s@.skip(0) =~= s@);
    while lo < n && is_whitespace(s[lo])
        invariant
            n == s@.len(),
            lo <= n,
            trim_start(s@) == trim_start(s@.skip(lo as int)),
        decreases n - lo,
    {
        assert(s@.skip(lo as int).skip(1) =~= s@.skip(lo + 1));
        lo += 1;
    }
    let mut hi: usize = n;
    while hi > lo && is_whitespace(s[hi - 1])
        invariant
            n == s@.len(),
            lo <= hi <= n,
            trim(s@) == trim_end(s@.subrange(lo as int, hi as int)),
        decreases hi,
    {
        assert(s@.subrange(lo as int, hi as int).drop_last() =~= s@.subrange(
            lo as int,
            hi - 1,
        ));
        hi -= 1;
    }
    slice_subrange(s, lo, hi)
}

/// Replaces every occurrence of `pat` in `text` by `with`.
pub fn replace_text(text: &str, pat: &str, with: &str) -> (out: String)
    ensures
        out@ == replace_all(text@, pat@, with@),
{
    let chars = chars_of(text);
    let pat_chars = chars_of(pat);
    let s = chars.as_slice();
    let p = pat_chars.as_slice();
    let n = s.len();
    let m = p.len();
    let mut out = String::new();
    if m == 0 {
        append_chars(&mut out, s);
        return out;
    }
    let mut pos: usize = 0;
    assert(s@.skip(0) =~= s@);
    loop
        invariant_except_break
            n == s@.len(),
            m == p@.len(),
            m > 0,
            pos <= n,
            s@ == text@,
            p@ == pat@,
            replace_all(text@, pat@, with@) == out@ + replace_all(
                s@.skip(pos as int),
                pat@,
                with@,
            ),
        ensures
            out@ == replace_all(text@, pat@, with@),
        decreases n - pos,
    {
        let rest = slice_subrange(s, pos, n);
        match find(rest, p) {
            Some(i) => {
                proof {
                    lemma_index_of_some(rest@, p@);
                    assert(rest@.skip(i + m) =~= s@.skip(pos + i + m));
                }
                append_chars(&mut out, slice_subrange(rest, 0, i));
                out.append(with);
                pos = pos + i + m;
            },
            None => {
                append_chars(&mut out, rest);
                break ;
            },
        }
    }
    out
}

/// Appends the number `n` in decimal digits.
pub fn append_decimal(out: &mut String, n: usize)
    ensures
        final(out)@ == old(out)@ + decimal(n as nat),
    decreases n,
{
    if n >= 10 {
        append_decimal(out, n / 10);
    }
    let zero: u8 = 48;
    let c = (zero + (n % 10) as u8) as char;
    push_char(out, c);
}

} // verus!
