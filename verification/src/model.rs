//! The layout document and its parts. Each type has a view, the mathematical
//! value that the contracts of this crate speak of.

use vstd::prelude::*;

verus! {

/// Absolute pixel geometry of an element on the canvas.
#[derive(Clone, Copy, Debug, PartialEq, Eq)]
pub struct Rect {
    pub x: u32,
    pub y: u32,
    pub width: u32,
    pub height: u32,
}

/// An image embedded in a document. The bytes are opaque to this crate, and
/// width and height are whatever the caller supplied.
#[derive(Clone, Debug, PartialEq, Eq)]
pub struct ImageData {
    pub width: u32,
    pub height: u32,
    pub data: Vec<u8>,
}

/// The value of an [`ImageData`].
pub struct ImageDataView {
    pub width: u32,
    pub height: u32,
    pub data: Seq<u8>,
}

impl View for ImageData {
    type V = ImageDataView;

    open spec fn view(&self) -> ImageDataView {
        ImageDataView { width: self.width, height: self.height, data: self.data@ }
    }
}

/// A typed property of an element.
#[derive(Clone, Debug, PartialEq, Eq)]
pub enum ConfigValue {
    StringValue(String),
    NumberValue(i64),
    /// A file on disk, shown by its path, with the image it held when it was
    /// chosen, so that the document does not depend on the file.
    PathValue { path: String, data: ImageData },
}

/// The value of a [`ConfigValue`].
pub enum ConfigValueView {
    StringValue(Seq<char>),
    NumberValue(i64),
    PathValue { path: Seq<char>, data: ImageDataView },
}

impl View for ConfigValue {
    type V = ConfigValueView;

    open spec fn view(&self) -> ConfigValueView {
        match *self {
            ConfigValue::StringValue(s) => ConfigValueView::StringValue(s@),
            ConfigValue::NumberValue(n) => ConfigValueView::NumberValue(n),
            ConfigValue::PathValue { path, data } => ConfigValueView::PathValue {
                path: path@,
                data: data@,
            },
        }
    }
}

/// The value of a list of properties: each key with its value, in order.
pub open spec fn entries_view(entries: Seq<(String, ConfigValue)>) -> Seq<
    (Seq<char>, ConfigValueView),
> {
    Seq::new(entries.len(), |i: int| (entries[i].0@, entries[i].1@))
}

/// No key occurs twice among `entries`.
pub open spec fn keys_unique(entries: Seq<(Seq<char>, ConfigValueView)>) -> bool {
    forall|i: int, j: int|
        0 <= i < j < entries.len() ==> (#[trigger] entries[i]).0 != (#[trigger] entries[j]).0
}

/// `key` occurs among `entries`.
pub open spec fn has_key(entries: Seq<(Seq<char>, ConfigValueView)>, key: Seq<char>) -> bool {
    exists|i: int| 0 <= i < entries.len() && (#[trigger] entries[i]).0 == key
}

/// A positioned, named, configurable unit of a layout. `data` is a mapping:
/// it lists each key once, and the order of its entries carries no meaning.
#[derive(Clone, Debug, PartialEq, Eq)]
pub struct GuiElement {
    pub dimensions: Rect,
    pub id: String,
    pub data: Vec<(String, ConfigValue)>,
    pub name: String,
}

/// The value of a [`GuiElement`].
pub struct GuiElementView {
    pub dimensions: Rect,
    pub id: Seq<char>,
    pub data: Seq<(Seq<char>, ConfigValueView)>,
    pub name: Seq<char>,
}

impl GuiElementView {
    /// The element lists no property key twice.
    pub open spec fn valid(self) -> bool {
        keys_unique(self.data)
    }
}

impl View for GuiElement {
    type V = GuiElementView;

    open spec fn view(&self) -> GuiElementView {
        GuiElementView {
            dimensions: self.dimensions,
            id: self.id@,
            data: entries_view(self.data@),
            name: self.name@,
        }
    }
}

/// The values of a list of elements, in order.
pub open spec fn elements_view(elements: Seq<GuiElement>) -> Seq<GuiElementView> {
    Seq::new(elements.len(), |i: int| elements[i]@)
}

/// One GUI screen: a root element and its children, whose order is kept.
#[derive(Clone, Debug, PartialEq, Eq)]
pub struct LayoutDocument {
    pub base_element: GuiElement,
    pub elements: Vec<GuiElement>,
}

/// The value of a [`LayoutDocument`].
pub struct LayoutDocumentView {
    pub base_element: GuiElementView,
    pub elements: Seq<GuiElementView>,
}

impl LayoutDocumentView {
    /// Every element of the document is valid.
    pub open spec fn valid(self) -> bool {
        &&& self.base_element.valid()
        &&& forall|i: int| 0 <= i < self.elements.len() ==> (#[trigger] self.elements[i]).valid()
    }
}

impl View for LayoutDocument {
    type V = LayoutDocumentView;

    open spec fn view(&self) -> LayoutDocumentView {
        LayoutDocumentView {
            base_element: self.base_element@,
            elements: elements_view(self.elements@),
        }
    }
}

/// What a successful load hands to the front end: the document and the
/// place it came from.
#[derive(Clone, Debug, PartialEq, Eq)]
pub struct LoadData {
    pub last_loaded_location: Option<String>,
    pub data: LayoutDocument,
}

/// The value of a [`LoadData`].
pub struct LoadDataView {
    pub last_loaded_location: Option<Seq<char>>,
    pub data: LayoutDocumentView,
}

impl View for LoadData {
    type V = LoadDataView;

    open spec fn view(&self) -> LoadDataView {
        LoadDataView {
            last_loaded_location: crate::text::option_view(self.last_loaded_location),
            data: self.data@,
        }
    }
}

/// Whether `key` is among the first `upto` keys of `entries`.
pub fn key_among(entries: &Vec<(String, ConfigValue)>, upto: usize, key: &String) -> (found: bool)
    requires
        upto <= entries.len(),
    ensures
        found == has_key(entries_view(entries@).take(upto as int), key@),
{
    let ghost view = entries_view(entries@);
    let mut i: usize = 0;
    while i < upto
        invariant
            i <= upto <= entries.len(),
            view == entries_view(entries@),
            forall|k: int| 0 <= k < i ==> (#[trigger] view[k]).0 != key@,
        decreases upto - i,
    {
        if entries[i].0 == *key {
            assert(view.take(upto as int)[i as int].0 == key@);
            return true;
        }
        i += 1;
    }
    assert forall|k: int| 0 <= k < view.take(upto as int).len() implies (#[trigger] view.take(
        upto as int,
    )[k]).0 != key@ by {
        assert(view.take(upto as int)[k] == view[k]);
    }
    false
}

impl GuiElement {
    /// Whether the element lists no property key twice.
    pub fn is_valid(&self) -> (ok: bool)
        ensures
            ok == self@.valid(),
    {
        let ghost view = entries_view(self.data@);
        let mut j: usize = 0;
        while j < self.data.len()
            invariant
                j <= self.data.len(),
                view == entries_view(self.data@),
                keys_unique(view.take(j as int)),
            decreases self.data.len() - j,
        {
            if key_among(&self.data, j, &self.data[j].0) {
                let ghost i = choose|i: int|
                    0 <= i < view.take(j as int).len() && (#[trigger] view.take(j as int)[i]).0
                        == view[j as int].0;
                assert(view.take(j as int)[i] == view[i]);
                assert(view[i].0 == view[j as int].0);
                return false;
            }
            assert forall|a: int, b: int| 0 <= a < b < j + 1 implies (#[trigger] view.take(
                j + 1,
            )[a]).0 != (#[trigger] view.take(j + 1)[b]).0 by {
                assert(view.take(j + 1)[a] == view.take(j as int)[a]);
                if b < j {
                    assert(view.take(j + 1)[b] == view.take(j as int)[b]);
                }
            }
            j += 1;
        }
        assert(view.take(self.data.len() as int) == view);
        true
    }
}

impl LayoutDocument {
    /// Whether every element of the document is valid.
    pub fn is_valid(&self) -> (ok: bool)
        ensures
            ok == self@.valid(),
    {
        if !self.base_element.is_valid() {
            return false;
        }
        let mut i: usize = 0;
        while i < self.elements.len()
            invariant
                i <= self.elements.len(),
                self@.base_element.valid(),
                forall|k: int| 0 <= k < i ==> (#[trigger] self@.elements[k]).valid(),
            decreases self.elements.len() - i,
        {
            if !self.elements[i].is_valid() {
                assert(!self@.elements[i as int].valid());
                return false;
            }
            i += 1;
        }
        true
    }
}

} // verus!
