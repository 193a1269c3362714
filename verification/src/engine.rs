//! What the generator takes from the matching engine: how a text is written
//! as a pattern that matches it literally.

use vstd::prelude::*;

verus! {

/// Whether `c` has a meaning of its own in a pattern of the matching engine.
pub open spec fn is_regex_meta(c: char) -> bool {
    ||| c == '\\'
    ||| c == '.'
    ||| c == '+'
    ||| c == '*'
    ||| c == '?'
    ||| c == '('
    ||| c == ')'
    ||| c == '|'
    ||| c == '['
    ||| c == ']'
    ||| c == '{'
    ||| c == '}'
    ||| c == '^'
    ||| c == '$'
    ||| c == '#'
    ||| c == '&'
    ||| c == '-'
    ||| c == '~'
}

/// `c` as it is written in a pattern to stand for itself.
pub open spec fn regex_escaped_char(c: char) -> Seq<char> {
    if is_regex_meta(c) {
        seq!['\\', c]
    } else {
        seq![c]
    }
}

/// `s` as it is written in a pattern to stand for itself: a backslash before
/// each character that has a meaning of its own, every other character as it
/// is.
pub open spec fn regex_escaped(s: Seq<char>) -> Seq<char>
    decreases s.len(),
{
    if s.len() == 0 {
        Seq::empty()
    } else {
        regex_escaped(s.drop_last()) + regex_escaped_char(s.last())
    }
}

/// Writes `text` as a pattern that matches it literally, with
/// `regex::escape`. That function walks the characters of `text` in order and
/// copies each one, putting a backslash before it where it is one of
/// `\ . + * ? ( ) | [ ] { } ^ $ # & - ~`; the contract says so.
#[verifier::external_body]
pub(crate) fn escape_regex(text: &str) -> (out: String)
    ensures
        out@ == regex_escaped(text@),
{
    regex::escape(text)
}

} // verus!
