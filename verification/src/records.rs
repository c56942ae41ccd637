//! The records of the file format, each a fixed row of pieces: that the
//! text of a record can be read in one way only.

use crate::format::{digits, is_digit, rect_text};
use crate::model::Rect;
use crate::numeral::lemma_digits_unique;
use crate::pieces::{
    concat,
    ends_at,
    fits,
    goes_on,
    lemma_concat_peel,
    lemma_number_then_code,
    lemma_only_code,
    lemma_reading_end,
    lemma_reading_start,
    lemma_reading_step,
    next_in,
    number_then,
    only,
    prefix_code,
    reading,
};
use vstd::prelude::*;

verus! {

/// Reading the row `ps` of `cands` from its own text leads through it piece
/// by piece, where each piece is of a kind that reads in one way only.
pub proof fn lemma_read_row(
    cands: Set<Seq<Seq<char>>>,
    whole: Seq<char>,
    ps: Seq<Seq<char>>,
    t: Seq<char>,
    sets: Seq<Set<Seq<char>>>,
    k: int,
)
    requires
        fits(whole, ps, t),
        sets.len() == ps.len(),
        0 <= k <= ps.len(),
        forall|j: int|
            0 <= j < ps.len() ==> prefix_code(#[trigger] sets[j]) && sets[j].contains(ps[j])
                && next_in(cands, ps.take(j), sets[j]),
    ensures
        reading(cands, whole, ps.take(k), concat(ps.skip(k)) + t),
    decreases k,
{
    if k == 0 {
        lemma_reading_start(cands, whole);
        assert(ps.take(0) =~= Seq::<Seq<char>>::empty());
        assert(ps.skip(0) =~= ps);
    } else {
        lemma_read_row(cands, whole, ps, t, sets, k - 1);
        lemma_concat_peel(ps, k - 1, t);
        assert(prefix_code(sets[k - 1]));
        lemma_reading_step(
            cands,
            whole,
            ps.take(k - 1),
            concat(ps.skip(k - 1)) + t,
            ps[k - 1],
            concat(ps.skip(k)) + t,
            sets[k - 1],
        );
        assert(ps.take(k - 1).push(ps[k - 1]) =~= ps.take(k));
    }
}

/// Two numerals with the same text behind them are the same where they
/// read the same.
pub proof fn lemma_number_then_same(n1: nat, n2: nat, then: Seq<char>)
    requires
        digits(n1) + then == digits(n2) + then,
        then.len() > 0,
        !is_digit(then[0]),
    ensures
        n1 == n2,
{
    lemma_digits_unique(n1, n2, then, then);
}

/// The pieces of a rectangle.
pub open spec fn rect_parts(r: Rect) -> Seq<Seq<char>> {
    seq![
        "{\"x\":"@,
        digits(r.x as nat) + ",\"y\":"@,
        digits(r.y as nat) + ",\"width\":"@,
        digits(r.width as nat) + ",\"height\":"@,
        digits(r.height as nat) + "}"@,
    ]
}

/// The kinds of the pieces of a rectangle.
pub open spec fn rect_sets() -> Seq<Set<Seq<char>>> {
    seq![
        only("{\"x\":"@),
        number_then(u32::MAX as nat, ",\"y\":"@),
        number_then(u32::MAX as nat, ",\"width\":"@),
        number_then(u32::MAX as nat, ",\"height\":"@),
        number_then(u32::MAX as nat, "}"@),
    ]
}

/// The rows of pieces of all rectangles.
pub open spec fn rect_cands() -> Set<Seq<Seq<char>>> {
    Set::new(|ps: Seq<Seq<char>>| exists|r: Rect| ps == #[trigger] rect_parts(r))
}

/// The texts of all rectangles.
pub open spec fn rect_texts() -> Set<Seq<char>> {
    Set::new(|a: Seq<char>| exists|r: Rect| a == #[trigger] rect_text(r))
}

/// The text of a rectangle is its pieces, one behind the other.
pub proof fn lemma_rect_parts(r: Rect)
    ensures
        rect_text(r) == concat(rect_parts(r)),
        rect_cands().contains(rect_parts(r)),
        rect_parts(r).len() == 5,
{
    let ps = rect_parts(r);
    assert(ps.skip(1).skip(1).skip(1).skip(1).skip(1).len() == 0);
    reveal_with_fuel(concat, 6);
    assert(concat(ps) =~= rect_text(r));
}

/// Every kind of piece of a rectangle reads in one way only.
pub proof fn lemma_rect_sets()
    ensures
        rect_sets().len() == 5,
        forall|j: int| 0 <= j < 5 ==> prefix_code(#[trigger] rect_sets()[j]),
{
    reveal_strlit(",\"y\":");
    reveal_strlit(",\"width\":");
    reveal_strlit(",\"height\":");
    reveal_strlit("}");
    lemma_only_code("{\"x\":"@);
    lemma_number_then_code(u32::MAX as nat, ",\"y\":"@);
    lemma_number_then_code(u32::MAX as nat, ",\"width\":"@);
    lemma_number_then_code(u32::MAX as nat, ",\"height\":"@);
    lemma_number_then_code(u32::MAX as nat, "}"@);
}

/// What the rows of rectangles that start with `done` go on with.
pub proof fn lemma_rect_shape(done: Seq<Seq<char>>)
    ensures
        done.len() < 5 ==> next_in(rect_cands(), done, rect_sets()[done.len() as int]),
        done.len() == 5 ==> ends_at(rect_cands(), done),
{
    assert forall|ps: Seq<Seq<char>>| #[trigger] rect_cands().contains(ps) implies ps.len() == 5
        && forall|j: int| 0 <= j < 5 ==> rect_sets()[j].contains(#[trigger] ps[j]) by {
        let r = choose|r: Rect| ps == #[trigger] rect_parts(r);
        assert(ps[1] == digits(r.x as nat) + ",\"y\":"@);
        assert(ps[2] == digits(r.y as nat) + ",\"width\":"@);
        assert(ps[3] == digits(r.width as nat) + ",\"height\":"@);
        assert(ps[4] == digits(r.height as nat) + "}"@);
    }
}

/// The text of a rectangle in front of any text can be read in one way
/// only.
pub proof fn lemma_rect_unique(r1: Rect, r2: Rect, u: Seq<char>, v: Seq<char>)
    requires
        rect_text(r1) + u == rect_text(r2) + v,
    ensures
        r1 == r2,
        u == v,
{
    let whole = rect_text(r1) + u;
    let ps = rect_parts(r1);
    lemma_rect_parts(r1);
    lemma_rect_parts(r2);
    lemma_rect_sets();
    assert forall|j: int| 0 <= j < ps.len() implies prefix_code(#[trigger] rect_sets()[j])
        && rect_sets()[j].contains(ps[j]) && next_in(rect_cands(), ps.take(j), rect_sets()[j]) by {
        lemma_rect_shape(ps.take(j));
        lemma_rect_shape(Seq::empty());
    }
    lemma_read_row(rect_cands(), whole, ps, u, rect_sets(), 5);
    assert(ps.take(5) =~= ps);
    lemma_rect_shape(ps);
    lemma_reading_end(rect_cands(), whole, ps, concat(ps.skip(5)) + u);
    assert(fits(whole, rect_parts(r2), v));
    assert(concat(ps.skip(5)) + u =~= u);
    let qs = rect_parts(r2);
    assert(ps[1] == qs[1] && ps[2] == qs[2] && ps[3] == qs[3] && ps[4] == qs[4]);
    reveal_strlit(",\"y\":");
    reveal_strlit(",\"width\":");
    reveal_strlit(",\"height\":");
    reveal_strlit("}");
    lemma_number_then_same(r1.x as nat, r2.x as nat, ",\"y\":"@);
    lemma_number_then_same(r1.y as nat, r2.y as nat, ",\"width\":"@);
    lemma_number_then_same(r1.width as nat, r2.width as nat, ",\"height\":"@);
    lemma_number_then_same(r1.height as nat, r2.height as nat, "}"@);
}

/// No text of a rectangle can be read in two ways.
pub proof fn lemma_rect_code()
    ensures
        prefix_code(rect_texts()),
{
    assert forall|a: Seq<char>, b: Seq<char>, u: Seq<char>, v: Seq<char>|
        rect_texts().contains(a) && rect_texts().contains(b) && #[trigger] goes_on(
            a + u,
            b,
            v,
        ) implies a == b && u == v by {
        let r1 = choose|r: Rect| a == #[trigger] rect_text(r);
        let r2 = choose|r: Rect| b == #[trigger] rect_text(r);
        lemma_rect_unique(r1, r2, u, v);
    }
}

} // verus!
