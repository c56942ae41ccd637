//! Elements, lists of elements, and the document that holds them.

use crate::config::{lemma_string_code, string_texts};
use crate::entries::{entries_texts, lemma_entries_code, lemma_entries_unique};
use crate::format::{
    document_text, element_text, elements_items, entries_items, rect_text, string_text,
};
use crate::lists::{all_in, items, lemma_items_unique, member_kind};
use crate::model::{GuiElementView, LayoutDocumentView};
use crate::pieces::{
    concat,
    ends_at,
    fits,
    goes_on,
    lemma_only_code,
    lemma_reading_end,
    next_in,
    only,
    prefix_code,
};
use crate::quoted::lemma_string_unique;
use crate::records::{lemma_read_row, lemma_rect_code, lemma_rect_unique, rect_texts};
use vstd::prelude::*;

verus! {

/// The pieces of an element.
pub open spec fn element_parts(e: GuiElementView) -> Seq<Seq<char>> {
    seq![
        "{\"dimensions\":"@,
        rect_text(e.dimensions),
        ",\"id\":"@,
        string_text(e.id),
        ",\"data\":{"@,
        entries_items(e.data, true),
        ",\"name\":"@,
        string_text(e.name),
        "}"@,
    ]
}

/// The kinds of the pieces of an element.
pub open spec fn element_sets() -> Seq<Set<Seq<char>>> {
    seq![
        only("{\"dimensions\":"@),
        rect_texts(),
        only(",\"id\":"@),
        string_texts(),
        only(",\"data\":{"@),
        entries_texts(),
        only(",\"name\":"@),
        string_texts(),
        only("}"@),
    ]
}

/// The rows of pieces of all valid elements.
pub open spec fn element_cands() -> Set<Seq<Seq<char>>> {
    Set::new(
        |ps: Seq<Seq<char>>|
            exists|e: GuiElementView| e.valid() && ps == #[trigger] element_parts(e),
    )
}

/// The texts of all valid elements.
pub open spec fn element_texts() -> Set<Seq<char>> {
    Set::new(
        |a: Seq<char>| exists|e: GuiElementView| e.valid() && a == #[trigger] element_text(e),
    )
}

/// The text of an element is its pieces, one behind the other.
pub proof fn lemma_element_parts(e: GuiElementView)
    ensures
        element_text(e) == concat(element_parts(e)),
        element_parts(e).len() == 9,
        e.valid() ==> element_cands().contains(element_parts(e)) && element_texts().contains(
            element_text(e),
        ),
{
    let ps = element_parts(e);
    assert(ps.skip(1).skip(1).skip(1).skip(1).skip(1).skip(1).skip(1).skip(1).skip(1).len() == 0);
    reveal_with_fuel(concat, 10);
    assert(concat(ps) =~= element_text(e));
}

/// Every kind of piece of an element reads in one way only.
pub proof fn lemma_element_sets()
    ensures
        element_sets().len() == 9,
        forall|j: int| 0 <= j < 9 ==> prefix_code(#[trigger] element_sets()[j]),
{
    lemma_only_code("{\"dimensions\":"@);
    lemma_rect_code();
    lemma_only_code(",\"id\":"@);
    lemma_string_code();
    lemma_only_code(",\"data\":{"@);
    lemma_entries_code();
    lemma_only_code(",\"name\":"@);
    lemma_only_code("}"@);
}

/// What the rows of valid elements that start with `done` go on with.
pub proof fn lemma_element_shape(done: Seq<Seq<char>>)
    ensures
        done.len() < 9 ==> next_in(element_cands(), done, element_sets()[done.len() as int]),
        done.len() == 9 ==> ends_at(element_cands(), done),
{
    assert forall|ps: Seq<Seq<char>>| #[trigger] element_cands().contains(ps) implies ps.len()
        == 9 && forall|j: int| 0 <= j < 9 ==> element_sets()[j].contains(#[trigger] ps[j]) by {
        let e = choose|e: GuiElementView| e.valid() && ps == #[trigger] element_parts(e);
        assert(ps[1] == rect_text(e.dimensions));
        assert(ps[3] == string_text(e.id));
        assert(ps[5] == entries_items(e.data, true));
        assert(ps[7] == string_text(e.name));
    }
}

/// The text of a valid element in front of any text can be read in one way
/// only.
pub proof fn lemma_element_unique(e1: GuiElementView, e2: GuiElementView, u: Seq<char>, v: Seq<char>)
    requires
        e1.valid(),
        e2.valid(),
        element_text(e1) + u == element_text(e2) + v,
    ensures
        e1 == e2,
        u == v,
{
    let whole = element_text(e1) + u;
    let ps = element_parts(e1);
    lemma_element_parts(e1);
    lemma_element_parts(e2);
    lemma_element_sets();
    assert forall|j: int| 0 <= j < ps.len() implies prefix_code(#[trigger] element_sets()[j])
        && element_sets()[j].contains(ps[j]) && next_in(
        element_cands(),
        ps.take(j),
        element_sets()[j],
    ) by {
        lemma_element_shape(ps.take(j));
        lemma_element_shape(Seq::empty());
    }
    lemma_read_row(element_cands(), whole, ps, u, element_sets(), 9);
    assert(ps.take(9) =~= ps);
    lemma_element_shape(ps);
    lemma_reading_end(element_cands(), whole, ps, concat(ps.skip(9)) + u);
    assert(fits(whole, element_parts(e2), v));
    assert(concat(ps.skip(9)) + u =~= u);
    let qs = element_parts(e2);
    assert(ps[1] == qs[1] && ps[3] == qs[3] && ps[5] == qs[5] && ps[7] == qs[7]);
    let none = Seq::<char>::empty();
    assert(rect_text(e1.dimensions) + none == rect_text(e2.dimensions) + none);
    lemma_rect_unique(e1.dimensions, e2.dimensions, none, none);
    assert(string_text(e1.id) + none == string_text(e2.id) + none);
    lemma_string_unique(e1.id, e2.id, none, none);
    assert(entries_items(e1.data, true) + none == entries_items(e2.data, true) + none);
    lemma_entries_unique(e1.data, e2.data, none, none);
    assert(string_text(e1.name) + none == string_text(e2.name) + none);
    lemma_string_unique(e1.name, e2.name, none, none);
}

/// No text of a valid element can be read in two ways.
pub proof fn lemma_element_code()
    ensures
        prefix_code(element_texts()),
{
    assert forall|a: Seq<char>, b: Seq<char>, u: Seq<char>, v: Seq<char>|
        element_texts().contains(a) && element_texts().contains(b) && #[trigger] goes_on(
            a + u,
            b,
            v,
        ) implies a == b && u == v by {
        let e1 = choose|e: GuiElementView| e.valid() && a == #[trigger] element_text(e);
        let e2 = choose|e: GuiElementView| e.valid() && b == #[trigger] element_text(e);
        lemma_element_unique(e1, e2, u, v);
    }
}

/// Every element of `elements` is valid.
pub open spec fn all_valid(elements: Seq<GuiElementView>) -> bool {
    forall|i: int| 0 <= i < elements.len() ==> (#[trigger] elements[i]).valid()
}

/// The text of each element of `elements`.
pub open spec fn element_row(elements: Seq<GuiElementView>) -> Seq<Seq<char>> {
    Seq::new(elements.len(), |i: int| element_text(elements[i]))
}

/// The texts of all lists of valid elements, from behind the opening
/// bracket on.
pub open spec fn elements_texts() -> Set<Seq<char>> {
    Set::new(
        |a: Seq<char>|
            exists|elements: Seq<GuiElementView>|
                all_valid(elements) && a == #[trigger] elements_items(elements, true),
    )
}

/// The text of a list of elements is the list of the texts of its members.
pub proof fn lemma_elements_items(elements: Seq<GuiElementView>, first: bool)
    ensures
        elements_items(elements, first) == items(element_row(elements), first, ']'),
        all_valid(elements) ==> all_in(element_row(elements), element_texts()),
    decreases elements.len(),
{
    if elements.len() > 0 {
        lemma_elements_items(elements.skip(1), false);
        assert(element_row(elements).skip(1) =~= element_row(elements.skip(1)));
        assert(elements_items(elements, first) =~= items(element_row(elements), first, ']'));
    }
    if all_valid(elements) {
        assert forall|i: int| 0 <= i < element_row(elements).len() implies element_texts().contains(
            #[trigger] element_row(elements)[i],
        ) by {
            assert(elements[i].valid());
            lemma_element_parts(elements[i]);
        }
    }
}

/// The texts of valid elements can be members of a list that closes with a
/// bracket.
pub proof fn lemma_element_kind()
    ensures
        member_kind(element_texts(), Set::full(), ']'),
{
    lemma_element_code();
    assert forall|a: Seq<char>| #[trigger] element_texts().contains(a) implies a.len() > 0 && a[0]
        != ']' by {
        let e = choose|e: GuiElementView| e.valid() && a == #[trigger] element_text(e);
        reveal_strlit("{\"dimensions\":");
        assert(a[0] == "{\"dimensions\":"@[0]);
    }
}

/// The text of a list of valid elements in front of any text can be read
/// in one way only.
pub proof fn lemma_elements_unique(
    e1: Seq<GuiElementView>,
    e2: Seq<GuiElementView>,
    u: Seq<char>,
    v: Seq<char>,
)
    requires
        all_valid(e1),
        all_valid(e2),
        elements_items(e1, true) + u == elements_items(e2, true) + v,
    ensures
        e1 == e2,
        u == v,
{
    lemma_elements_items(e1, true);
    lemma_elements_items(e2, true);
    lemma_element_kind();
    lemma_items_unique(
        element_row(e1),
        element_row(e2),
        u,
        v,
        true,
        ']',
        element_texts(),
        Set::full(),
    );
    let none = Seq::<char>::empty();
    assert(e1.len() == element_row(e1).len());
    assert(e2.len() == element_row(e2).len());
    assert forall|i: int| 0 <= i < e1.len() implies e1[i] == e2[i] by {
        assert(element_row(e1)[i] == element_text(e1[i]));
        assert(element_row(e2)[i] == element_text(e2[i]));
        assert(e1[i].valid() && e2[i].valid());
        assert(element_text(e1[i]) + none == element_text(e2[i]) + none);
        lemma_element_unique(e1[i], e2[i], none, none);
    }
    assert(e1 =~= e2);
}

/// No text of a list of valid elements can be read in two ways.
pub proof fn lemma_elements_code()
    ensures
        prefix_code(elements_texts()),
{
    assert forall|a: Seq<char>, b: Seq<char>, u: Seq<char>, v: Seq<char>|
        elements_texts().contains(a) && elements_texts().contains(b) && #[trigger] goes_on(
            a + u,
            b,
            v,
        ) implies a == b && u == v by {
        let e1 = choose|elements: Seq<GuiElementView>|
            all_valid(elements) && a == #[trigger] elements_items(elements, true);
        let e2 = choose|elements: Seq<GuiElementView>|
            all_valid(elements) && b == #[trigger] elements_items(elements, true);
        lemma_elements_unique(e1, e2, u, v);
    }
}

/// The pieces of a document.
pub open spec fn document_parts(d: LayoutDocumentView) -> Seq<Seq<char>> {
    seq![
        "{\"base_element\":"@,
        element_text(d.base_element),
        ",\"elements\":["@,
        elements_items(d.elements, true),
        "}"@,
    ]
}

/// The kinds of the pieces of a document.
pub open spec fn document_sets() -> Seq<Set<Seq<char>>> {
    seq![
        only("{\"base_element\":"@),
        element_texts(),
        only(",\"elements\":["@),
        elements_texts(),
        only("}"@),
    ]
}

/// The rows of pieces of all valid documents.
pub open spec fn document_cands() -> Set<Seq<Seq<char>>> {
    Set::new(
        |ps: Seq<Seq<char>>|
            exists|d: LayoutDocumentView| d.valid() && ps == #[trigger] document_parts(d),
    )
}

/// The text of a document is its pieces, one behind the other.
pub proof fn lemma_document_parts(d: LayoutDocumentView)
    ensures
        document_text(d) == concat(document_parts(d)),
        document_parts(d).len() == 5,
        d.valid() ==> document_cands().contains(document_parts(d)),
        d.valid() <==> d.base_element.valid() && all_valid(d.elements),
{
    let ps = document_parts(d);
    assert(ps.skip(1).skip(1).skip(1).skip(1).skip(1).len() == 0);
    reveal_with_fuel(concat, 6);
    assert(concat(ps) =~= document_text(d));
}

/// Every kind of piece of a document reads in one way only.
pub proof fn lemma_document_sets()
    ensures
        document_sets().len() == 5,
        forall|j: int| 0 <= j < 5 ==> prefix_code(#[trigger] document_sets()[j]),
{
    lemma_only_code("{\"base_element\":"@);
    lemma_element_code();
    lemma_only_code(",\"elements\":["@);
    lemma_elements_code();
    lemma_only_code("}"@);
}

/// What the rows of valid documents that start with `done` go on with.
pub proof fn lemma_document_shape(done: Seq<Seq<char>>)
    ensures
        done.len() < 5 ==> next_in(document_cands(), done, document_sets()[done.len() as int]),
        done.len() == 5 ==> ends_at(document_cands(), done),
{
    assert forall|ps: Seq<Seq<char>>| #[trigger] document_cands().contains(ps) implies ps.len()
        == 5 && forall|j: int| 0 <= j < 5 ==> document_sets()[j].contains(#[trigger] ps[j]) by {
        let d = choose|d: LayoutDocumentView| d.valid() && ps == #[trigger] document_parts(d);
        lemma_document_parts(d);
        assert(ps[1] == element_text(d.base_element));
        assert(ps[3] == elements_items(d.elements, true));
    }
}

/// The text of a valid document in front of any text can be read in one
/// way only.
pub proof fn lemma_document_unique(
    d1: LayoutDocumentView,
    d2: LayoutDocumentView,
    u: Seq<char>,
    v: Seq<char>,
)
    requires
        d1.valid(),
        d2.valid(),
        document_text(d1) + u == document_text(d2) + v,
    ensures
        d1 == d2,
        u == v,
{
    let whole = document_text(d1) + u;
    let ps = document_parts(d1);
    lemma_document_parts(d1);
    lemma_document_parts(d2);
    lemma_document_sets();
    assert forall|j: int| 0 <= j < ps.len() implies prefix_code(#[trigger] document_sets()[j])
        && document_sets()[j].contains(ps[j]) && next_in(
        document_cands(),
        ps.take(j),
        document_sets()[j],
    ) by {
        lemma_document_shape(ps.take(j));
        lemma_document_shape(Seq::empty());
    }
    lemma_read_row(document_cands(), whole, ps, u, document_sets(), 5);
    assert(ps.take(5) =~= ps);
    lemma_document_shape(ps);
    lemma_reading_end(document_cands(), whole, ps, concat(ps.skip(5)) + u);
    assert(fits(whole, document_parts(d2), v));
    assert(concat(ps.skip(5)) + u =~= u);
    let qs = document_parts(d2);
    assert(ps[1] == qs[1] && ps[3] == qs[3]);
    let none = Seq::<char>::empty();
    assert(element_text(d1.base_element) + none == element_text(d2.base_element) + none);
    lemma_element_unique(d1.base_element, d2.base_element, none, none);
    assert(elements_items(d1.elements, true) + none == elements_items(d2.elements, true) + none);
    lemma_elements_unique(d1.elements, d2.elements, none, none);
}

} // verus!
