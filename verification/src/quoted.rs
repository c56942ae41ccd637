//! Quoted strings: that a quoted string names one string.

use crate::format::{escape_char, hex_char, string_body, string_text};
use vstd::prelude::*;

verus! {

/// `c` is a hexadecimal digit in lower case.
pub open spec fn is_hex(c: char) -> bool {
    '0' <= c <= '9' || 'a' <= c <= 'f'
}

/// The value of the hexadecimal digit `c`.
pub open spec fn hex_value(c: char) -> int {
    if c <= '9' {
        c as int - 48
    } else {
        c as int - 87
    }
}

/// The character that `w` starts with inside a quoted string, and how much
/// of `w` spells it; `None` where `w` starts with the closing quote or with
/// nothing that an escaped character can start with.
#[verifier::opaque]
pub open spec fn escaped_head(w: Seq<char>) -> Option<(char, int)> {
    if w.len() == 0 {
        None
    } else if w[0] == '"' {
        None
    } else if w[0] == '\\' {
        if w.len() < 2 {
            None
        } else if w[1] == '"' {
            Some(('"', 2))
        } else if w[1] == '\\' {
            Some(('\\', 2))
        } else if w[1] == 'b' {
            Some(('\u{8}', 2))
        } else if w[1] == 'f' {
            Some(('\u{c}', 2))
        } else if w[1] == 'n' {
            Some(('\n', 2))
        } else if w[1] == 'r' {
            Some(('\r', 2))
        } else if w[1] == 't' {
            Some(('\t', 2))
        } else if w[1] == 'u' && w.len() >= 6 && w[2] == '0' && w[3] == '0' && (w[4] == '0'
            || w[4] == '1') && is_hex(w[5]) {
            let code = hex_value(w[4]) * 16 + hex_value(w[5]);
            if code == 8 || code == 9 || code == 10 || code == 12 || code == 13 {
                None
            } else {
                Some((code as char, 6))
            }
        } else {
            None
        }
    } else if (w[0] as int) < 32 {
        None
    } else {
        Some((w[0], 1))
    }
}

/// Text that starts with an escaped character is read as that character.
pub proof fn lemma_head_of_escape(c: char, u: Seq<char>)
    ensures
        escaped_head(escape_char(c) + u) == Some((c, escape_char(c).len() as int)),
{
    reveal(escaped_head);
    reveal(escape_char);
    let e = escape_char(c);
    let w = e + u;
    assert(w[0] == e[0]);
    if e.len() >= 2 {
        assert(w[1] == e[1]);
    }
    if e.len() == 6 {
        assert(w[2] == e[2]);
        assert(w[3] == e[3]);
        assert(w[4] == e[4]);
        assert(w[5] == e[5]);
        let code = c as int;
        assert(0 <= code < 32);
        assert(hex_value(hex_char(code / 16)) == code / 16);
        assert(hex_value(hex_char(code % 16)) == code % 16);
        assert(hex_value(w[4]) * 16 + hex_value(w[5]) == code);
    }
}

/// What text is read as a character is that character, escaped.
pub proof fn lemma_escape_of_head(w: Seq<char>)
    requires
        escaped_head(w) is Some,
    ensures
        escaped_head(w) matches Some((c, n)) && 0 < n <= w.len() && w.take(n) == escape_char(c)
            && w == escape_char(c) + w.skip(n),
{
    reveal(escaped_head);
    reveal(escape_char);
    let (c, n) = escaped_head(w).unwrap();
    if n == 6 {
        let code = hex_value(w[4]) * 16 + hex_value(w[5]);
        assert(0 <= code < 32);
        assert(c as int == code);
        assert(hex_char(code / 16) == w[4]);
        assert(hex_char(code % 16) == w[5]);
    }
    assert(w.take(n) =~= escape_char(c));
    assert(w =~= w.take(n) + w.skip(n));
}

/// A string body in front of any text can be read in one way only.
pub proof fn lemma_string_body_unique(s1: Seq<char>, s2: Seq<char>, t1: Seq<char>, t2: Seq<char>)
    requires
        string_body(s1) + t1 == string_body(s2) + t2,
    ensures
        s1 == s2,
        t1 == t2,
    decreases s1.len(),
{
    let w = string_body(s1) + t1;
    lemma_body_head(s1, t1);
    lemma_body_head(s2, t2);
    if s1.len() == 0 || s2.len() == 0 {
        assert(s1 =~= s2);
        assert(t1 =~= w.skip(1));
        assert(t2 =~= (string_body(s2) + t2).skip(1));
    } else {
        let r1 = string_body(s1.skip(1)) + t1;
        let r2 = string_body(s2.skip(1)) + t2;
        assert(r1 =~= w.skip(escape_char(s1[0]).len() as int));
        assert(r2 =~= w.skip(escape_char(s2[0]).len() as int));
        lemma_string_body_unique(s1.skip(1), s2.skip(1), t1, t2);
        assert(s1 =~= seq![s1[0]] + s1.skip(1));
        assert(s2 =~= seq![s2[0]] + s2.skip(1));
    }
}

/// A quoted string in front of any text can be read in one way only.
pub proof fn lemma_string_unique(s1: Seq<char>, s2: Seq<char>, t1: Seq<char>, t2: Seq<char>)
    requires
        string_text(s1) + t1 == string_text(s2) + t2,
    ensures
        s1 == s2,
        t1 == t2,
{
    let w = string_text(s1) + t1;
    assert(string_body(s1) + t1 =~= w.skip(1));
    assert(string_body(s2) + t2 =~= (string_text(s2) + t2).skip(1));
    lemma_string_body_unique(s1, s2, t1, t2);
}

/// A quoted string starts with a quote.
pub proof fn lemma_string_starts(s: Seq<char>, t: Seq<char>)
    ensures
        (string_text(s) + t).len() >= 2,
        (string_text(s) + t)[0] == '"',
{
    assert(string_body(s).len() >= 1) by {
        if s.len() > 0 {
            reveal(escape_char);
            assert(escape_char(s[0]).len() >= 1);
        }
    }
    assert((string_text(s) + t)[0] == string_text(s)[0]);
}

/// A string body starts with the closing quote or with an escaped
/// character, and so with something.
proof fn lemma_body_head(s: Seq<char>, t: Seq<char>)
    ensures
        (string_body(s) + t).len() > 0,
        s.len() == 0 ==> (string_body(s) + t)[0] == '"',
        s.len() > 0 ==> escaped_head(string_body(s) + t) == Some(
            (s[0], escape_char(s[0]).len() as int),
        ) && (string_body(s) + t)[0] != '"' && string_body(s) + t == escape_char(s[0]) + (
        string_body(s.skip(1)) + t),
{
    if s.len() == 0 {
        assert((string_body(s) + t)[0] == string_body(s)[0]);
    } else {
        let tail = string_body(s.skip(1)) + t;
        assert(string_body(s) + t =~= escape_char(s[0]) + tail);
        lemma_head_of_escape(s[0], tail);
        lemma_escape_of_head(string_body(s) + t);
        reveal(escaped_head);
    }
}

} // verus!
