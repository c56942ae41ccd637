//! Decimal numerals: that a numeral names one number.

use crate::format::{digit_char, digits, int_text, is_digit};
use vstd::prelude::*;

verus! {

/// `t` does not go on with a digit: a numeral that stands in front of it
/// ends where `t` begins.
pub open spec fn ends_numeral(t: Seq<char>) -> bool {
    t.len() == 0 || !is_digit(t[0])
}

/// Every character of `ds` is a digit.
pub open spec fn all_digits(ds: Seq<char>) -> bool {
    forall|i: int| 0 <= i < ds.len() ==> is_digit(#[trigger] ds[i])
}

/// The number that the digits `ds` spell.
pub open spec fn number_of(ds: Seq<char>) -> nat
    decreases ds.len(),
{
    if ds.len() == 0 {
        0
    } else {
        (number_of(ds.drop_last()) * 10 + (ds.last() as int - 48)) as nat
    }
}

/// A numeral is made of digits, starts with zero only for zero, and spells
/// its number.
pub proof fn lemma_digits_shape(n: nat)
    ensures
        digits(n).len() >= 1,
        all_digits(digits(n)),
        digits(n)[0] == '0' <==> n == 0,
        n < 10 ==> digits(n).len() == 1,
        number_of(digits(n)) == n,
    decreases n,
{
    if n < 10 {
        assert(digits(n).drop_last().len() == 0);
        assert(number_of(digits(n).drop_last()) == 0);
        assert(digits(n).last() == digit_char(n as int));
    } else {
        lemma_digits_shape(n / 10);
        let front = digits(n / 10);
        assert(digits(n) == front.push(digit_char((n % 10) as int)));
        assert(digits(n).drop_last() == front);
        assert(digits(n).last() == digit_char((n % 10) as int));
        assert(digits(n)[0] == front[0]);
        assert(number_of(digits(n)) == number_of(front) * 10 + (n % 10));
    }
}

/// A numeral in front of text that does not go on with a digit can be read
/// in one way only.
pub proof fn lemma_digits_unique(n1: nat, n2: nat, t1: Seq<char>, t2: Seq<char>)
    requires
        digits(n1) + t1 == digits(n2) + t2,
        ends_numeral(t1),
        ends_numeral(t2),
    ensures
        n1 == n2,
        t1 == t2,
{
    lemma_digits_shape(n1);
    lemma_digits_shape(n2);
    let a = digits(n1);
    let b = digits(n2);
    let w = a + t1;
    if a.len() < b.len() {
        assert(w[a.len() as int] == t1[0]);
        assert((b + t2)[a.len() as int] == b[a.len() as int]);
        assert(false);
    }
    if b.len() < a.len() {
        assert((b + t2)[b.len() as int] == t2[0]);
        assert(w[b.len() as int] == a[b.len() as int]);
        assert(false);
    }
    assert(a =~= w.take(a.len() as int));
    assert(b =~= (b + t2).take(b.len() as int));
    assert(t1 =~= w.skip(a.len() as int));
    assert(t2 =~= (b + t2).skip(b.len() as int));
}

/// A signed numeral in front of text that does not go on with a digit can
/// be read in one way only.
pub proof fn lemma_int_unique(i1: int, i2: int, t1: Seq<char>, t2: Seq<char>)
    requires
        int_text(i1) + t1 == int_text(i2) + t2,
        ends_numeral(t1),
        ends_numeral(t2),
    ensures
        i1 == i2,
        t1 == t2,
{
    let m1 = (if i1 < 0 { -i1 } else { i1 }) as nat;
    let m2 = (if i2 < 0 { -i2 } else { i2 }) as nat;
    lemma_digits_shape(m1);
    lemma_digits_shape(m2);
    let w = int_text(i1) + t1;
    assert(w[0] == int_text(i1)[0]);
    assert(w[0] == int_text(i2)[0]);
    if i1 < 0 {
        assert(int_text(i1)[0] == '-');
        assert(i2 < 0) by {
            if i2 >= 0 {
                assert(int_text(i2)[0] == digits(m2)[0]);
                assert(is_digit(digits(m2)[0]));
            }
        }
        assert(digits(m1) + t1 =~= w.skip(1));
        assert(digits(m2) + t2 =~= (int_text(i2) + t2).skip(1));
        lemma_digits_unique(m1, m2, t1, t2);
    } else {
        assert(i2 >= 0) by {
            if i2 < 0 {
                assert(int_text(i2)[0] == '-');
                assert(is_digit(digits(m1)[0]));
            }
        }
        lemma_digits_unique(m1, m2, t1, t2);
    }
}

} // verus!
