//! Text that is made of pieces, one behind the other, and what it takes to
//! read such text in one way only. A record of the file format is a fixed
//! row of pieces; reading it piece by piece keeps track of every record
//! that the text could still stand for.

use crate::format::{digits, int_text, is_digit};
use crate::numeral::{lemma_digits_unique, lemma_int_unique};
use vstd::prelude::*;

verus! {

/// The pieces `ps`, one behind the other.
pub open spec fn concat(ps: Seq<Seq<char>>) -> Seq<char>
    decreases ps.len(),
{
    if ps.len() == 0 {
        Seq::empty()
    } else {
        ps[0] + concat(ps.skip(1))
    }
}

/// `w` is `a` and then `t`.
pub open spec fn goes_on(w: Seq<char>, a: Seq<char>, t: Seq<char>) -> bool {
    w == a + t
}

/// `whole` is the pieces `ps` and then `t`.
pub open spec fn fits(whole: Seq<char>, ps: Seq<Seq<char>>, t: Seq<char>) -> bool {
    whole == concat(ps) + t
}

/// No text of `texts` can be read in two ways: where two of them stand in
/// front of the same text, they are the same and so is what follows.
pub open spec fn prefix_code(texts: Set<Seq<char>>) -> bool {
    forall|a: Seq<char>, b: Seq<char>, u: Seq<char>, v: Seq<char>|
        texts.contains(a) && texts.contains(b) && #[trigger] goes_on(a + u, b, v) ==> a == b && u
            == v
}

/// Reading `whole` has taken the pieces `done` and has `w` left, and every
/// row of `cands` that `whole` starts with starts with `done` and leaves `w`
/// for its other pieces.
pub open spec fn reading(
    cands: Set<Seq<Seq<char>>>,
    whole: Seq<char>,
    done: Seq<Seq<char>>,
    w: Seq<char>,
) -> bool {
    &&& whole == concat(done) + w
    &&& forall|ps: Seq<Seq<char>>, t: Seq<char>|
        cands.contains(ps) && #[trigger] fits(whole, ps, t) ==> done.len() <= ps.len() && ps.take(
            done.len() as int,
        ) == done && w == concat(ps.skip(done.len() as int)) + t
}

/// Every row of `cands` that starts with `done` goes on with a piece of
/// `texts`.
pub open spec fn next_in(cands: Set<Seq<Seq<char>>>, done: Seq<Seq<char>>, texts: Set<Seq<char>>) -> bool {
    forall|ps: Seq<Seq<char>>| #[trigger]
        cands.contains(ps) && done.len() <= ps.len() && ps.take(done.len() as int) == done
            ==> done.len() < ps.len() && texts.contains(ps[done.len() as int])
}

/// Every row of `cands` that starts with `done` ends there.
pub open spec fn ends_at(cands: Set<Seq<Seq<char>>>, done: Seq<Seq<char>>) -> bool {
    forall|ps: Seq<Seq<char>>| #[trigger]
        cands.contains(ps) && done.len() <= ps.len() && ps.take(done.len() as int) == done
            ==> ps.len() == done.len()
}

/// The one text `text`.
pub open spec fn only(text: Seq<char>) -> Set<Seq<char>> {
    Set::new(|a: Seq<char>| a == text)
}

/// The numerals of the numbers up to `max`, each with `then` behind it.
pub open spec fn number_then(max: nat, then: Seq<char>) -> Set<Seq<char>> {
    Set::new(|a: Seq<char>| exists|n: nat| n <= max && a == #[trigger] digits(n) + then)
}

/// The numerals of the 64-bit signed numbers, each with `then` behind it.
pub open spec fn int_then(then: Seq<char>) -> Set<Seq<char>> {
    Set::new(
        |a: Seq<char>|
            exists|n: int| i64::MIN <= n <= i64::MAX && a == #[trigger] int_text(n) + then,
    )
}

/// Text that goes on in front of `x` and of `y` alike leaves `x` and `y`
/// equal.
pub proof fn lemma_cancel(a: Seq<char>, x: Seq<char>, y: Seq<char>)
    requires
        a + x == a + y,
    ensures
        x == y,
{
    assert(x =~= (a + x).skip(a.len() as int));
    assert(y =~= (a + y).skip(a.len() as int));
}

/// One more piece at the end goes behind the others.
pub proof fn lemma_concat_push(ps: Seq<Seq<char>>, a: Seq<char>)
    ensures
        concat(ps.push(a)) == concat(ps) + a,
    decreases ps.len(),
{
    let more = ps.push(a);
    if ps.len() == 0 {
        assert(more.skip(1).len() == 0);
        assert(concat(more.skip(1)).len() == 0);
        assert(more[0] == a);
        assert(concat(more) =~= a);
        assert(concat(ps) + a =~= a);
    } else {
        assert(more[0] == ps[0]);
        assert(more.skip(1) =~= ps.skip(1).push(a));
        lemma_concat_push(ps.skip(1), a);
        assert(concat(more) =~= concat(ps) + a);
    }
}

/// The pieces from the `k`-th on are the `k`-th and then the others.
pub proof fn lemma_concat_peel(ps: Seq<Seq<char>>, k: int, t: Seq<char>)
    requires
        0 <= k < ps.len(),
    ensures
        concat(ps.skip(k)) + t == ps[k] + (concat(ps.skip(k + 1)) + t),
{
    let q = ps.skip(k);
    assert(q[0] == ps[k]);
    assert(q.skip(1) =~= ps.skip(k + 1));
    assert(concat(q) + t =~= ps[k] + (concat(ps.skip(k + 1)) + t));
}

/// Before anything is read, the whole is left.
pub proof fn lemma_reading_start(cands: Set<Seq<Seq<char>>>, whole: Seq<char>)
    ensures
        reading(cands, whole, Seq::empty(), whole),
{
    let done = Seq::<Seq<char>>::empty();
    assert(concat(done) + whole =~= whole);
    assert forall|ps: Seq<Seq<char>>, t: Seq<char>|
        cands.contains(ps) && #[trigger] fits(whole, ps, t) implies done.len() <= ps.len()
        && ps.take(done.len() as int) == done && whole == concat(ps.skip(done.len() as int))
        + t by {
        assert(ps.take(0) =~= done);
        assert(ps.skip(0) =~= ps);
    }
}

/// Reading one more piece, which no row can read otherwise.
pub proof fn lemma_reading_step(
    cands: Set<Seq<Seq<char>>>,
    whole: Seq<char>,
    done: Seq<Seq<char>>,
    w: Seq<char>,
    a: Seq<char>,
    w2: Seq<char>,
    texts: Set<Seq<char>>,
)
    requires
        reading(cands, whole, done, w),
        w == a + w2,
        texts.contains(a),
        prefix_code(texts),
        next_in(cands, done, texts),
    ensures
        reading(cands, whole, done.push(a), w2),
{
    let k = done.len() as int;
    let grown = done.push(a);
    lemma_concat_push(done, a);
    assert(whole =~= concat(grown) + w2);
    assert forall|ps: Seq<Seq<char>>, t: Seq<char>|
        cands.contains(ps) && #[trigger] fits(whole, ps, t) implies grown.len() <= ps.len()
        && ps.take(grown.len() as int) == grown && w2 == concat(ps.skip(grown.len() as int))
        + t by {
        lemma_concat_peel(ps, k, t);
        let rest = concat(ps.skip(k + 1)) + t;
        assert(goes_on(a + w2, ps[k], rest));
        assert(ps.take(k + 1) =~= ps.take(k).push(ps[k]));
    }
}

/// Where every row ends with the pieces read, the pieces read are the one
/// row that the whole starts with.
pub proof fn lemma_reading_end(
    cands: Set<Seq<Seq<char>>>,
    whole: Seq<char>,
    done: Seq<Seq<char>>,
    w: Seq<char>,
)
    requires
        reading(cands, whole, done, w),
        ends_at(cands, done),
    ensures
        forall|ps: Seq<Seq<char>>, t: Seq<char>|
            cands.contains(ps) && #[trigger] fits(whole, ps, t) ==> ps == done && t == w,
{
    assert forall|ps: Seq<Seq<char>>, t: Seq<char>|
        cands.contains(ps) && #[trigger] fits(whole, ps, t) implies ps == done && t == w by {
        assert(ps.take(ps.len() as int) =~= ps);
        assert(ps.skip(ps.len() as int).len() == 0);
        assert(concat(ps.skip(ps.len() as int)) + t =~= t);
    }
}

/// A single text reads in one way only.
pub proof fn lemma_only_code(text: Seq<char>)
    ensures
        prefix_code(only(text)),
        only(text).contains(text),
{
    assert forall|a: Seq<char>, b: Seq<char>, u: Seq<char>, v: Seq<char>|
        only(text).contains(a) && only(text).contains(b) && #[trigger] goes_on(
            a + u,
            b,
            v,
        ) implies a == b && u == v by {
        lemma_cancel(text, u, v);
    }
}

/// Numerals with text behind them that does not start with a digit read in one
/// way only.
pub proof fn lemma_number_then_code(max: nat, then: Seq<char>)
    requires
        then.len() > 0,
        !is_digit(then[0]),
    ensures
        prefix_code(number_then(max, then)),
{
    assert forall|a: Seq<char>, b: Seq<char>, u: Seq<char>, v: Seq<char>|
        number_then(max, then).contains(a) && number_then(max, then).contains(b)
            && #[trigger] goes_on(a + u, b, v) implies a == b && u == v by {
        let n1 = choose|n: nat| n <= max && a == #[trigger] digits(n) + then;
        let n2 = choose|n: nat| n <= max && b == #[trigger] digits(n) + then;
        assert(a + u =~= digits(n1) + (then + u));
        assert(b + v =~= digits(n2) + (then + v));
        assert((then + u)[0] == then[0]);
        assert((then + v)[0] == then[0]);
        lemma_digits_unique(n1, n2, then + u, then + v);
        lemma_cancel(then, u, v);
    }
}

/// Signed numerals with text behind them that does not start with a digit read
/// in one way only.
pub proof fn lemma_int_then_code(then: Seq<char>)
    requires
        then.len() > 0,
        !is_digit(then[0]),
    ensures
        prefix_code(int_then(then)),
{
    assert forall|a: Seq<char>, b: Seq<char>, u: Seq<char>, v: Seq<char>|
        int_then(then).contains(a) && int_then(then).contains(b) && #[trigger] goes_on(
            a + u,
            b,
            v,
        ) implies a == b && u == v by {
        let n1 = choose|n: int| i64::MIN <= n <= i64::MAX && a == #[trigger] int_text(n) + then;
        let n2 = choose|n: int| i64::MIN <= n <= i64::MAX && b == #[trigger] int_text(n) + then;
        assert(a + u =~= int_text(n1) + (then + u));
        assert(b + v =~= int_text(n2) + (then + v));
        assert((then + u)[0] == then[0]);
        assert((then + v)[0] == then[0]);
        lemma_int_unique(n1, n2, then + u, then + v);
        lemma_cancel(then, u, v);
    }
}

} // verus!
