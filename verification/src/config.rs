//! Property values and the properties of an element: one value is an
//! object named after its kind, one property a key with its value, and the
//! properties of an element a list of them with no key twice.

use crate::bytes::{image_texts, lemma_image_code, lemma_image_unique};
use crate::format::{config_text, image_text, int_text, string_text};
use crate::model::ConfigValueView;
use crate::numeral::lemma_int_unique;
use crate::pieces::{
    concat,
    ends_at,
    fits,
    goes_on,
    int_then,
    lemma_int_then_code,
    lemma_only_code,
    lemma_reading_end,
    next_in,
    only,
    prefix_code,
};
use crate::quoted::lemma_string_unique;
use crate::records::lemma_read_row;
use crate::pieces::lemma_cancel;
use vstd::prelude::*;

verus! {

/// The texts of all quoted strings.
pub open spec fn string_texts() -> Set<Seq<char>> {
    Set::new(|a: Seq<char>| exists|s: Seq<char>| a == #[trigger] string_text(s))
}

/// No quoted string can be read in two ways.
pub proof fn lemma_string_code()
    ensures
        prefix_code(string_texts()),
{
    assert forall|a: Seq<char>, b: Seq<char>, u: Seq<char>, v: Seq<char>|
        string_texts().contains(a) && string_texts().contains(b) && #[trigger] goes_on(
            a + u,
            b,
            v,
        ) implies a == b && u == v by {
        let s1 = choose|s: Seq<char>| a == #[trigger] string_text(s);
        let s2 = choose|s: Seq<char>| b == #[trigger] string_text(s);
        lemma_string_unique(s1, s2, u, v);
    }
}

/// The pieces of a property value.
pub open spec fn config_parts(value: ConfigValueView) -> Seq<Seq<char>> {
    match value {
        ConfigValueView::StringValue(s) => seq!["{\"StringValue\":"@, string_text(s), "}"@],
        ConfigValueView::NumberValue(n) => seq!["{\"NumberValue\":"@, int_text(n as int) + "}"@],
        ConfigValueView::PathValue { path, data } => seq![
            "{\"PathValue\":{\"path\":"@,
            string_text(path),
            ",\"data\":"@,
            image_text(data),
            "}}"@,
        ],
    }
}

/// What a property value opens with, for each of its kinds.
pub open spec fn config_tags() -> Set<Seq<char>> {
    Set::new(
        |a: Seq<char>|
            a == "{\"StringValue\":"@ || a == "{\"NumberValue\":"@ || a
                == "{\"PathValue\":{\"path\":"@,
    )
}

/// The kinds of the pieces of the property value `value`.
pub open spec fn config_sets(value: ConfigValueView) -> Seq<Set<Seq<char>>> {
    match value {
        ConfigValueView::StringValue(_) => seq![config_tags(), string_texts(), only("}"@)],
        ConfigValueView::NumberValue(_) => seq![config_tags(), int_then("}"@)],
        ConfigValueView::PathValue { .. } => seq![
            config_tags(),
            string_texts(),
            only(",\"data\":"@),
            image_texts(),
            only("}}"@),
        ],
    }
}

/// The rows of pieces of all property values.
pub open spec fn config_cands() -> Set<Seq<Seq<char>>> {
    Set::new(
        |ps: Seq<Seq<char>>| exists|value: ConfigValueView| ps == #[trigger] config_parts(value),
    )
}

/// The texts of all property values.
pub open spec fn config_texts() -> Set<Seq<char>> {
    Set::new(|a: Seq<char>| exists|value: ConfigValueView| a == #[trigger] config_text(value))
}

/// The text of a property value is its pieces, one behind the other.
pub proof fn lemma_config_parts(value: ConfigValueView)
    ensures
        config_text(value) == concat(config_parts(value)),
        config_cands().contains(config_parts(value)),
        config_parts(value).len() == config_sets(value).len(),
{
    let ps = config_parts(value);
    reveal_with_fuel(concat, 6);
    match value {
        ConfigValueView::StringValue(_) => {
            assert(ps.skip(1).skip(1).skip(1).len() == 0);
        },
        ConfigValueView::NumberValue(_) => {
            assert(ps.skip(1).skip(1).len() == 0);
        },
        ConfigValueView::PathValue { .. } => {
            assert(ps.skip(1).skip(1).skip(1).skip(1).skip(1).len() == 0);
        },
    }
    assert(concat(ps) =~= config_text(value));
}

/// The three openings differ in their third character.
pub proof fn lemma_config_tags()
    ensures
        prefix_code(config_tags()),
        "{\"StringValue\":"@ != "{\"NumberValue\":"@,
        "{\"StringValue\":"@ != "{\"PathValue\":{\"path\":"@,
        "{\"NumberValue\":"@ != "{\"PathValue\":{\"path\":"@,
{
    reveal_strlit("{\"StringValue\":");
    reveal_strlit("{\"NumberValue\":");
    reveal_strlit("{\"PathValue\":{\"path\":");
    assert("{\"StringValue\":"@[2] == 'S');
    assert("{\"NumberValue\":"@[2] == 'N');
    assert("{\"PathValue\":{\"path\":"@[2] == 'P');
    assert forall|a: Seq<char>, b: Seq<char>, u: Seq<char>, v: Seq<char>|
        config_tags().contains(a) && config_tags().contains(b) && #[trigger] goes_on(
            a + u,
            b,
            v,
        ) implies a == b && u == v by {
        assert((a + u)[2] == a[2]);
        assert((b + v)[2] == b[2]);
        lemma_cancel(a, u, v);
    }
}

/// Every kind of piece of a property value reads in one way only.
pub proof fn lemma_config_sets(value: ConfigValueView)
    ensures
        forall|j: int|
            0 <= j < config_sets(value).len() ==> prefix_code(#[trigger] config_sets(value)[j]),
{
    reveal_strlit("}");
    lemma_config_tags();
    lemma_string_code();
    lemma_only_code("}"@);
    lemma_int_then_code("}"@);
    lemma_only_code(",\"data\":"@);
    lemma_image_code();
    lemma_only_code("}}"@);
}

/// What the rows that start with `done` go on with.
pub proof fn lemma_config_shape(done: Seq<Seq<char>>, value: ConfigValueView)
    requires
        done.len() > 0 ==> done[0] == config_parts(value)[0],
    ensures
        done.len() < config_sets(value).len() ==> next_in(
            config_cands(),
            done,
            config_sets(value)[done.len() as int],
        ),
        done.len() == config_sets(value).len() ==> ends_at(config_cands(), done),
{
    lemma_config_tags();
    let k = done.len() as int;
    assert forall|ps: Seq<Seq<char>>| #[trigger]
        config_cands().contains(ps) && done.len() <= ps.len() && ps.take(k) == done implies 0
        < ps.len() && config_tags().contains(ps[0]) && (k > 0 ==> ps.len() == config_sets(
        value,
    ).len() && forall|j: int|
        0 <= j < ps.len() ==> config_sets(value)[j].contains(#[trigger] ps[j])) by {
        let other = choose|other: ConfigValueView| ps == #[trigger] config_parts(other);
        if k > 0 {
            assert(ps.take(k)[0] == ps[0]);
        }
        match other {
            ConfigValueView::StringValue(s) => {
                assert(ps[1] == string_text(s));
            },
            ConfigValueView::NumberValue(n) => {
                assert(ps[1] == int_text(n as int) + "}"@);
            },
            ConfigValueView::PathValue { path, data } => {
                assert(ps[1] == string_text(path));
                assert(ps[3] == image_text(data));
            },
        }
        assert(config_tags().contains(ps[0]));
    }
}

/// The text of a property value in front of any text can be read in one
/// way only.
pub proof fn lemma_config_unique(
    v1: ConfigValueView,
    v2: ConfigValueView,
    u: Seq<char>,
    v: Seq<char>,
)
    requires
        config_text(v1) + u == config_text(v2) + v,
    ensures
        v1 == v2,
        u == v,
{
    let whole = config_text(v1) + u;
    let ps = config_parts(v1);
    let n = ps.len() as int;
    lemma_config_parts(v1);
    lemma_config_parts(v2);
    lemma_config_sets(v1);
    lemma_config_tags();
    assert forall|j: int| 0 <= j < ps.len() implies prefix_code(#[trigger] config_sets(v1)[j])
        && config_sets(v1)[j].contains(ps[j]) && next_in(
        config_cands(),
        ps.take(j),
        config_sets(v1)[j],
    ) by {
        if j > 0 {
            assert(ps.take(j)[0] == ps[0]);
        }
        lemma_config_shape(ps.take(j), v1);
        lemma_config_shape(ps, v1);
        assert(ps.take(n) =~= ps);
    }
    lemma_read_row(config_cands(), whole, ps, u, config_sets(v1), n);
    assert(ps.take(n) =~= ps);
    lemma_config_shape(ps, v1);
    lemma_reading_end(config_cands(), whole, ps, concat(ps.skip(n)) + u);
    assert(fits(whole, config_parts(v2), v));
    assert(ps.skip(n).len() == 0);
    assert(concat(ps.skip(n)) + u =~= u);
    let qs = config_parts(v2);
    assert(ps[0] == qs[0]);
    let none = Seq::<char>::empty();
    match (v1, v2) {
        (ConfigValueView::StringValue(s1), ConfigValueView::StringValue(s2)) => {
            assert(ps[1] == qs[1]);
            assert(string_text(s1) + none == string_text(s2) + none);
            lemma_string_unique(s1, s2, none, none);
        },
        (ConfigValueView::NumberValue(n1), ConfigValueView::NumberValue(n2)) => {
            assert(ps[1] == qs[1]);
            reveal_strlit("}");
            lemma_int_unique(n1 as int, n2 as int, "}"@, "}"@);
        },
        (
            ConfigValueView::PathValue { path: at1, data: d1 },
            ConfigValueView::PathValue { path: at2, data: d2 },
        ) => {
            assert(ps[1] == qs[1]);
            assert(ps[3] == qs[3]);
            assert(string_text(at1) + none == string_text(at2) + none);
            lemma_string_unique(at1, at2, none, none);
            assert(image_text(d1) + none == image_text(d2) + none);
            lemma_image_unique(d1, d2, none, none);
        },
        _ => {
            assert(false);
        },
    }
}

/// No text of a property value can be read in two ways.
pub proof fn lemma_config_code()
    ensures
        prefix_code(config_texts()),
{
    assert forall|a: Seq<char>, b: Seq<char>, u: Seq<char>, v: Seq<char>|
        config_texts().contains(a) && config_texts().contains(b) && #[trigger] goes_on(
            a + u,
            b,
            v,
        ) implies a == b && u == v by {
        let v1 = choose|value: ConfigValueView| a == #[trigger] config_text(value);
        let v2 = choose|value: ConfigValueView| b == #[trigger] config_text(value);
        lemma_config_unique(v1, v2, u, v);
    }
}

} // verus!
