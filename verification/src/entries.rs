//! The properties of an element: each a key with its value, and all of them
//! a list in which no key stands twice.

use crate::config::{
    config_texts,
    lemma_config_code,
    lemma_config_unique,
    lemma_string_code,
    string_texts,
};
use crate::format::{config_text, entries_items, entry_text, string_text};
use crate::lists::{all_in, items, lemma_items_unique, member_kind};
use crate::model::{keys_unique, ConfigValueView};
use crate::pieces::{
    concat,
    ends_at,
    fits,
    goes_on,
    lemma_only_code,
    lemma_reading_end,
    next_in,
    only,
    prefix_code,
};
use crate::quoted::{lemma_string_starts, lemma_string_unique};
use crate::records::lemma_read_row;
use vstd::prelude::*;

verus! {

/// The pieces of a property.
pub open spec fn entry_parts(entry: (Seq<char>, ConfigValueView)) -> Seq<Seq<char>> {
    seq![string_text(entry.0), ":"@, config_text(entry.1)]
}

/// The kinds of the pieces of a property.
pub open spec fn entry_sets() -> Seq<Set<Seq<char>>> {
    seq![string_texts(), only(":"@), config_texts()]
}

/// The rows of pieces of all properties.
pub open spec fn entry_cands() -> Set<Seq<Seq<char>>> {
    Set::new(
        |ps: Seq<Seq<char>>|
            exists|entry: (Seq<char>, ConfigValueView)| ps == #[trigger] entry_parts(entry),
    )
}

/// The texts of all properties.
pub open spec fn entry_texts() -> Set<Seq<char>> {
    Set::new(
        |a: Seq<char>|
            exists|entry: (Seq<char>, ConfigValueView)| a == #[trigger] entry_text(entry),
    )
}

/// The text of a property is its pieces, one behind the other.
pub proof fn lemma_entry_parts(entry: (Seq<char>, ConfigValueView))
    ensures
        entry_text(entry) == concat(entry_parts(entry)),
        entry_cands().contains(entry_parts(entry)),
        entry_texts().contains(entry_text(entry)),
        entry_parts(entry).len() == 3,
{
    let ps = entry_parts(entry);
    reveal_strlit(":");
    assert(":"@ =~= seq![':']);
    assert(ps.skip(1).skip(1).skip(1).len() == 0);
    reveal_with_fuel(concat, 4);
    assert(concat(ps) =~= entry_text(entry));
}

/// Every kind of piece of a property reads in one way only.
pub proof fn lemma_entry_sets()
    ensures
        entry_sets().len() == 3,
        forall|j: int| 0 <= j < 3 ==> prefix_code(#[trigger] entry_sets()[j]),
{
    lemma_string_code();
    lemma_only_code(":"@);
    lemma_config_code();
}

/// What the rows of properties that start with `done` go on with.
pub proof fn lemma_entry_shape(done: Seq<Seq<char>>)
    ensures
        done.len() < 3 ==> next_in(entry_cands(), done, entry_sets()[done.len() as int]),
        done.len() == 3 ==> ends_at(entry_cands(), done),
{
    assert forall|ps: Seq<Seq<char>>| #[trigger] entry_cands().contains(ps) implies ps.len() == 3
        && forall|j: int| 0 <= j < 3 ==> entry_sets()[j].contains(#[trigger] ps[j]) by {
        let entry = choose|entry: (Seq<char>, ConfigValueView)| ps == #[trigger] entry_parts(entry);
        assert(ps[0] == string_text(entry.0));
        assert(ps[2] == config_text(entry.1));
    }
}

/// The text of a property in front of any text can be read in one way
/// only.
pub proof fn lemma_entry_unique(
    e1: (Seq<char>, ConfigValueView),
    e2: (Seq<char>, ConfigValueView),
    u: Seq<char>,
    v: Seq<char>,
)
    requires
        entry_text(e1) + u == entry_text(e2) + v,
    ensures
        e1 == e2,
        u == v,
{
    let whole = entry_text(e1) + u;
    let ps = entry_parts(e1);
    lemma_entry_parts(e1);
    lemma_entry_parts(e2);
    lemma_entry_sets();
    assert forall|j: int| 0 <= j < ps.len() implies prefix_code(#[trigger] entry_sets()[j])
        && entry_sets()[j].contains(ps[j]) && next_in(
        entry_cands(),
        ps.take(j),
        entry_sets()[j],
    ) by {
        lemma_entry_shape(ps.take(j));
        lemma_entry_shape(Seq::empty());
    }
    lemma_read_row(entry_cands(), whole, ps, u, entry_sets(), 3);
    assert(ps.take(3) =~= ps);
    lemma_entry_shape(ps);
    lemma_reading_end(entry_cands(), whole, ps, concat(ps.skip(3)) + u);
    assert(fits(whole, entry_parts(e2), v));
    assert(concat(ps.skip(3)) + u =~= u);
    let qs = entry_parts(e2);
    assert(ps[0] == qs[0] && ps[2] == qs[2]);
    let none = Seq::<char>::empty();
    assert(string_text(e1.0) + none == string_text(e2.0) + none);
    lemma_string_unique(e1.0, e2.0, none, none);
    assert(config_text(e1.1) + none == config_text(e2.1) + none);
    lemma_config_unique(e1.1, e2.1, none, none);
}

/// The text of each property of `entries`.
pub open spec fn entry_row(entries: Seq<(Seq<char>, ConfigValueView)>) -> Seq<Seq<char>> {
    Seq::new(entries.len(), |i: int| entry_text(entries[i]))
}

/// The texts of all lists of properties that hold no key twice, from behind
/// the opening brace on.
pub open spec fn entries_texts() -> Set<Seq<char>> {
    Set::new(
        |a: Seq<char>|
            exists|entries: Seq<(Seq<char>, ConfigValueView)>|
                keys_unique(entries) && a == #[trigger] entries_items(entries, true),
    )
}

/// The text of a list of properties is the list of the texts of its members.
pub proof fn lemma_entries_items(entries: Seq<(Seq<char>, ConfigValueView)>, first: bool)
    ensures
        entries_items(entries, first) == items(entry_row(entries), first, '}'),
        all_in(entry_row(entries), entry_texts()),
    decreases entries.len(),
{
    if entries.len() > 0 {
        lemma_entries_items(entries.skip(1), false);
        assert(entry_row(entries).skip(1) =~= entry_row(entries.skip(1)));
        assert(entries_items(entries, first) =~= items(entry_row(entries), first, '}'));
    }
    assert forall|i: int| 0 <= i < entry_row(entries).len() implies entry_texts().contains(
        #[trigger] entry_row(entries)[i],
    ) by {
        lemma_entry_parts(entries[i]);
    }
}

/// The texts of properties can be members of a list that closes with a brace.
pub proof fn lemma_entry_kind()
    ensures
        member_kind(entry_texts(), Set::full(), '}'),
{
    assert forall|a: Seq<char>, b: Seq<char>, u: Seq<char>, v: Seq<char>|
        entry_texts().contains(a) && entry_texts().contains(b) && #[trigger] goes_on(
            a + u,
            b,
            v,
        ) implies a == b && u == v by {
        let e1 = choose|entry: (Seq<char>, ConfigValueView)| a == #[trigger] entry_text(entry);
        let e2 = choose|entry: (Seq<char>, ConfigValueView)| b == #[trigger] entry_text(entry);
        lemma_entry_unique(e1, e2, u, v);
    }
    assert forall|a: Seq<char>| #[trigger] entry_texts().contains(a) implies a.len() > 0 && a[0]
        != '}' by {
        let entry = choose|entry: (Seq<char>, ConfigValueView)| a == #[trigger] entry_text(entry);
        let tail = seq![':'] + config_text(entry.1);
        lemma_string_starts(entry.0, tail);
        assert(a =~= string_text(entry.0) + tail);
    }
}

/// Lists of properties with the same texts hold the same properties.
pub proof fn lemma_entry_row_same(
    e1: Seq<(Seq<char>, ConfigValueView)>,
    e2: Seq<(Seq<char>, ConfigValueView)>,
    upto: int,
)
    requires
        0 <= upto <= e1.len(),
        upto <= e2.len(),
        entry_row(e1).take(upto) == entry_row(e2).take(upto),
    ensures
        e1.take(upto) == e2.take(upto),
{
    let none = Seq::<char>::empty();
    assert forall|i: int| 0 <= i < upto implies e1[i] == e2[i] by {
        assert(entry_row(e1).take(upto)[i] == entry_text(e1[i]));
        assert(entry_row(e2).take(upto)[i] == entry_text(e2[i]));
        assert(entry_text(e1[i]) + none == entry_text(e2[i]) + none);
        lemma_entry_unique(e1[i], e2[i], none, none);
    }
    assert(e1.take(upto) =~= e2.take(upto));
}

/// The text of a list of properties in front of any text can be read in
/// one way only.
pub proof fn lemma_entries_unique(
    e1: Seq<(Seq<char>, ConfigValueView)>,
    e2: Seq<(Seq<char>, ConfigValueView)>,
    u: Seq<char>,
    v: Seq<char>,
)
    requires
        entries_items(e1, true) + u == entries_items(e2, true) + v,
    ensures
        e1 == e2,
        u == v,
{
    lemma_entries_items(e1, true);
    lemma_entries_items(e2, true);
    lemma_entry_kind();
    lemma_items_unique(
        entry_row(e1),
        entry_row(e2),
        u,
        v,
        true,
        '}',
        entry_texts(),
        Set::full(),
    );
    assert(entry_row(e1).take(e1.len() as int) =~= entry_row(e1));
    assert(entry_row(e2).take(e2.len() as int) =~= entry_row(e2));
    assert(e1.len() == entry_row(e1).len());
    assert(e2.len() == entry_row(e2).len());
    lemma_entry_row_same(e1, e2, e1.len() as int);
    assert(e1.take(e1.len() as int) =~= e1);
    assert(e2.take(e2.len() as int) =~= e2);
}

/// No text of a list of properties without a key twice can be read in two ways.
pub proof fn lemma_entries_code()
    ensures
        prefix_code(entries_texts()),
{
    assert forall|a: Seq<char>, b: Seq<char>, u: Seq<char>, v: Seq<char>|
        entries_texts().contains(a) && entries_texts().contains(b) && #[trigger] goes_on(
            a + u,
            b,
            v,
        ) implies a == b && u == v by {
        let e1 = choose|entries: Seq<(Seq<char>, ConfigValueView)>|
            keys_unique(entries) && a == #[trigger] entries_items(entries, true);
        let e2 = choose|entries: Seq<(Seq<char>, ConfigValueView)>|
            keys_unique(entries) && b == #[trigger] entries_items(entries, true);
        lemma_entries_unique(e1, e2, u, v);
    }
}

} // verus!
