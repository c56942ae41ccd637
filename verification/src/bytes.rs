//! Lists of bytes and the embedded images that hold them.

use crate::format::{bytes_items, digits, image_text, is_digit};
use crate::lists::{all_in, items, lemma_items_unique, member_kind};
use crate::model::ImageDataView;
use crate::numeral::{ends_numeral, lemma_digits_shape, lemma_digits_unique};
use crate::pieces::{
    concat,
    ends_at,
    fits,
    goes_on,
    lemma_number_then_code,
    lemma_only_code,
    lemma_reading_end,
    next_in,
    number_then,
    only,
    prefix_code,
};
use crate::records::{lemma_number_then_same, lemma_read_row};
use vstd::prelude::*;

verus! {

/// The numeral of each byte of `bytes`.
pub open spec fn byte_texts(bytes: Seq<u8>) -> Seq<Seq<char>> {
    Seq::new(bytes.len(), |i: int| digits(bytes[i] as nat))
}

/// The numerals of the bytes.
pub open spec fn byte_numerals() -> Set<Seq<char>> {
    Set::new(|a: Seq<char>| exists|n: nat| n <= 255 && a == #[trigger] digits(n))
}

/// The texts in front of which a numeral ends.
pub open spec fn numeral_ends() -> Set<Seq<char>> {
    Set::new(|t: Seq<char>| ends_numeral(t))
}

/// The texts of all lists of bytes, from behind the opening bracket on.
pub open spec fn bytes_texts() -> Set<Seq<char>> {
    Set::new(|a: Seq<char>| exists|bytes: Seq<u8>| a == #[trigger] bytes_items(bytes, true))
}

/// The text of a list of bytes is the list of the numerals of its bytes.
pub proof fn lemma_bytes_items(bytes: Seq<u8>, first: bool)
    ensures
        bytes_items(bytes, first) == items(byte_texts(bytes), first, ']'),
        all_in(byte_texts(bytes), byte_numerals()),
    decreases bytes.len(),
{
    if bytes.len() > 0 {
        lemma_bytes_items(bytes.skip(1), false);
        assert(byte_texts(bytes).skip(1) =~= byte_texts(bytes.skip(1)));
        assert(bytes_items(bytes, first) =~= items(byte_texts(bytes), first, ']'));
    }
}

/// The numerals of bytes can be members of a list that closes with a bracket.
pub proof fn lemma_byte_kind()
    ensures
        member_kind(byte_numerals(), numeral_ends(), ']'),
{
    assert forall|a: Seq<char>, b: Seq<char>, u: Seq<char>, v: Seq<char>|
        byte_numerals().contains(a) && byte_numerals().contains(b) && numeral_ends().contains(u)
            && numeral_ends().contains(v) && #[trigger] goes_on(a + u, b, v) implies a == b && u
        == v by {
        let n1 = choose|n: nat| n <= 255 && a == #[trigger] digits(n);
        let n2 = choose|n: nat| n <= 255 && b == #[trigger] digits(n);
        lemma_digits_unique(n1, n2, u, v);
    }
    assert forall|a: Seq<char>| #[trigger] byte_numerals().contains(a) implies a.len() > 0 && a[0]
        != ']' by {
        let n = choose|n: nat| n <= 255 && a == #[trigger] digits(n);
        lemma_digits_shape(n);
        assert(is_digit(a[0]));
    }
}

/// Lists of bytes with the same numerals hold the same bytes.
pub proof fn lemma_byte_texts_same(b1: Seq<u8>, b2: Seq<u8>)
    requires
        byte_texts(b1) == byte_texts(b2),
    ensures
        b1 == b2,
{
    assert(b1.len() == byte_texts(b1).len());
    assert(b2.len() == byte_texts(b2).len());
    assert forall|i: int| 0 <= i < b1.len() implies b1[i] == b2[i] by {
        assert(byte_texts(b1)[i] == digits(b1[i] as nat));
        assert(byte_texts(b2)[i] == digits(b2[i] as nat));
        lemma_digits_shape(b1[i] as nat);
        lemma_digits_shape(b2[i] as nat);
    }
    assert(b1 =~= b2);
}

/// The text of a list of bytes in front of any text can be read in one way
/// only.
pub proof fn lemma_bytes_unique(b1: Seq<u8>, b2: Seq<u8>, u: Seq<char>, v: Seq<char>)
    requires
        bytes_items(b1, true) + u == bytes_items(b2, true) + v,
    ensures
        b1 == b2,
        u == v,
{
    lemma_bytes_items(b1, true);
    lemma_bytes_items(b2, true);
    lemma_byte_kind();
    lemma_items_unique(
        byte_texts(b1),
        byte_texts(b2),
        u,
        v,
        true,
        ']',
        byte_numerals(),
        numeral_ends(),
    );
    lemma_byte_texts_same(b1, b2);
}

/// No text of a list of bytes can be read in two ways.
pub proof fn lemma_bytes_code()
    ensures
        prefix_code(bytes_texts()),
{
    assert forall|a: Seq<char>, b: Seq<char>, u: Seq<char>, v: Seq<char>|
        bytes_texts().contains(a) && bytes_texts().contains(b) && #[trigger] goes_on(
            a + u,
            b,
            v,
        ) implies a == b && u == v by {
        let b1 = choose|bytes: Seq<u8>| a == #[trigger] bytes_items(bytes, true);
        let b2 = choose|bytes: Seq<u8>| b == #[trigger] bytes_items(bytes, true);
        lemma_bytes_unique(b1, b2, u, v);
    }
}

/// The pieces of an embedded image.
pub open spec fn image_parts(image: ImageDataView) -> Seq<Seq<char>> {
    seq![
        "{\"width\":"@,
        digits(image.width as nat) + ",\"height\":"@,
        digits(image.height as nat) + ",\"data\":["@,
        bytes_items(image.data, true),
        "}"@,
    ]
}

/// The kinds of the pieces of an embedded image.
pub open spec fn image_sets() -> Seq<Set<Seq<char>>> {
    seq![
        only("{\"width\":"@),
        number_then(u32::MAX as nat, ",\"height\":"@),
        number_then(u32::MAX as nat, ",\"data\":["@),
        bytes_texts(),
        only("}"@),
    ]
}

/// The rows of pieces of all embedded images.
pub open spec fn image_cands() -> Set<Seq<Seq<char>>> {
    Set::new(|ps: Seq<Seq<char>>| exists|image: ImageDataView| ps == #[trigger] image_parts(image))
}

/// The texts of all embedded images.
pub open spec fn image_texts() -> Set<Seq<char>> {
    Set::new(|a: Seq<char>| exists|image: ImageDataView| a == #[trigger] image_text(image))
}

/// The text of an embedded image is its pieces, one behind the other.
pub proof fn lemma_image_parts(image: ImageDataView)
    ensures
        image_text(image) == concat(image_parts(image)),
        image_cands().contains(image_parts(image)),
        image_parts(image).len() == 5,
{
    let ps = image_parts(image);
    assert(ps.skip(1).skip(1).skip(1).skip(1).skip(1).len() == 0);
    reveal_with_fuel(concat, 6);
    assert(concat(ps) =~= image_text(image));
}

/// Every kind of piece of an embedded image reads in one way only.
pub proof fn lemma_image_sets()
    ensures
        image_sets().len() == 5,
        forall|j: int| 0 <= j < 5 ==> prefix_code(#[trigger] image_sets()[j]),
{
    reveal_strlit(",\"height\":");
    reveal_strlit(",\"data\":[");
    lemma_only_code("{\"width\":"@);
    lemma_number_then_code(u32::MAX as nat, ",\"height\":"@);
    lemma_number_then_code(u32::MAX as nat, ",\"data\":["@);
    lemma_bytes_code();
    lemma_only_code("}"@);
}

/// What the rows of embedded images that start with `done` go on with.
pub proof fn lemma_image_shape(done: Seq<Seq<char>>)
    ensures
        done.len() < 5 ==> next_in(image_cands(), done, image_sets()[done.len() as int]),
        done.len() == 5 ==> ends_at(image_cands(), done),
{
    assert forall|ps: Seq<Seq<char>>| #[trigger] image_cands().contains(ps) implies ps.len() == 5
        && forall|j: int| 0 <= j < 5 ==> image_sets()[j].contains(#[trigger] ps[j]) by {
        let image = choose|image: ImageDataView| ps == #[trigger] image_parts(image);
        assert(ps[1] == digits(image.width as nat) + ",\"height\":"@);
        assert(ps[2] == digits(image.height as nat) + ",\"data\":["@);
        assert(ps[3] == bytes_items(image.data, true));
    }
}

/// The text of an embedded image in front of any text can be read in one
/// way only.
pub proof fn lemma_image_unique(i1: ImageDataView, i2: ImageDataView, u: Seq<char>, v: Seq<char>)
    requires
        image_text(i1) + u == image_text(i2) + v,
    ensures
        i1 == i2,
        u == v,
{
    let whole = image_text(i1) + u;
    let ps = image_parts(i1);
    lemma_image_parts(i1);
    lemma_image_parts(i2);
    lemma_image_sets();
    assert forall|j: int| 0 <= j < ps.len() implies prefix_code(#[trigger] image_sets()[j])
        && image_sets()[j].contains(ps[j]) && next_in(
        image_cands(),
        ps.take(j),
        image_sets()[j],
    ) by {
        lemma_image_shape(ps.take(j));
        lemma_image_shape(Seq::empty());
    }
    lemma_read_row(image_cands(), whole, ps, u, image_sets(), 5);
    assert(ps.take(5) =~= ps);
    lemma_image_shape(ps);
    lemma_reading_end(image_cands(), whole, ps, concat(ps.skip(5)) + u);
    assert(fits(whole, image_parts(i2), v));
    assert(concat(ps.skip(5)) + u =~= u);
    let qs = image_parts(i2);
    assert(ps[1] == qs[1] && ps[2] == qs[2] && ps[3] == qs[3]);
    reveal_strlit(",\"height\":");
    reveal_strlit(",\"data\":[");
    lemma_number_then_same(i1.width as nat, i2.width as nat, ",\"height\":"@);
    lemma_number_then_same(i1.height as nat, i2.height as nat, ",\"data\":["@);
    lemma_bytes_unique(i1.data, i2.data, Seq::empty(), Seq::empty());
}

/// No text of an embedded image can be read in two ways.
pub proof fn lemma_image_code()
    ensures
        prefix_code(image_texts()),
{
    assert forall|a: Seq<char>, b: Seq<char>, u: Seq<char>, v: Seq<char>|
        image_texts().contains(a) && image_texts().contains(b) && #[trigger] goes_on(
            a + u,
            b,
            v,
        ) implies a == b && u == v by {
        let i1 = choose|image: ImageDataView| a == #[trigger] image_text(image);
        let i2 = choose|image: ImageDataView| b == #[trigger] image_text(image);
        lemma_image_unique(i1, i2, u, v);
    }
}

} // verus!
