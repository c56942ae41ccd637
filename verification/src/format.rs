//! The text of a `.mcgf` file: compact JSON with the fields of each part in
//! a fixed order. This module says, for every value of the model, which text
//! stands for it.

use crate::model::{ConfigValueView, GuiElementView, ImageDataView, LayoutDocumentView, Rect};
use vstd::prelude::*;

verus! {

/// `c` is one of the ten decimal digits.
pub open spec fn is_digit(c: char) -> bool {
    '0' <= c <= '9'
}

/// The character of the decimal digit `d`.
pub open spec fn digit_char(d: int) -> char {
    (d + 48) as char
}

/// The decimal numeral of `n`, without leading zeros.
pub open spec fn digits(n: nat) -> Seq<char>
    decreases n,
{
    if n < 10 {
        seq![digit_char(n as int)]
    } else {
        digits(n / 10).push(digit_char((n % 10) as int))
    }
}

/// The decimal numeral of `i`, with a minus sign where it is negative.
pub open spec fn int_text(i: int) -> Seq<char> {
    if i < 0 {
        seq!['-'] + digits((-i) as nat)
    } else {
        digits(i as nat)
    }
}

/// The character of the hexadecimal digit `d`, in lower case.
pub open spec fn hex_char(d: int) -> char {
    if d < 10 {
        (d + 48) as char
    } else {
        (d + 87) as char
    }
}

/// How one character stands inside a quoted string: quotes, backslashes
/// and control characters are escaped, everything else stands for itself.
#[verifier::opaque]
pub open spec fn escape_char(c: char) -> Seq<char> {
    if c == '"' {
        seq!['\\', '"']
    } else if c == '\\' {
        seq!['\\', '\\']
    } else if c == '\u{8}' {
        seq!['\\', 'b']
    } else if c == '\u{c}' {
        seq!['\\', 'f']
    } else if c == '\n' {
        seq!['\\', 'n']
    } else if c == '\r' {
        seq!['\\', 'r']
    } else if c == '\t' {
        seq!['\\', 't']
    } else if (c as int) < 32 {
        seq!['\\', 'u', '0', '0', hex_char(c as int / 16), hex_char(c as int % 16)]
    } else {
        seq![c]
    }
}

/// What follows the opening quote of the string `s`: its characters,
/// escaped, and the closing quote.
pub open spec fn string_body(s: Seq<char>) -> Seq<char>
    decreases s.len(),
{
    if s.len() == 0 {
        seq!['"']
    } else {
        escape_char(s[0]) + string_body(s.skip(1))
    }
}

/// The quoted string `s`.
pub open spec fn string_text(s: Seq<char>) -> Seq<char> {
    seq!['"'] + string_body(s)
}

/// The text of a rectangle.
pub open spec fn rect_text(r: Rect) -> Seq<char> {
    "{\"x\":"@ + digits(r.x as nat) + ",\"y\":"@ + digits(r.y as nat) + ",\"width\":"@ + digits(
        r.width as nat,
    ) + ",\"height\":"@ + digits(r.height as nat) + "}"@
}

/// What follows the opening bracket of a list of bytes, or, with `first`
/// false, what follows one of its members: the members that are left,
/// separated by commas, and the closing bracket.
pub open spec fn bytes_items(bytes: Seq<u8>, first: bool) -> Seq<char>
    decreases bytes.len(),
{
    if bytes.len() == 0 {
        seq![']']
    } else {
        (if first {
            Seq::<char>::empty()
        } else {
            seq![',']
        }) + digits(bytes[0] as nat) + bytes_items(bytes.skip(1), false)
    }
}

/// The text of an embedded image.
pub open spec fn image_text(image: ImageDataView) -> Seq<char> {
    "{\"width\":"@ + digits(image.width as nat) + ",\"height\":"@ + digits(image.height as nat)
        + ",\"data\":["@ + bytes_items(image.data, true) + "}"@
}

/// The text of a property value: an object with one member, named after
/// the kind of value.
pub open spec fn config_text(value: ConfigValueView) -> Seq<char> {
    match value {
        ConfigValueView::StringValue(s) => "{\"StringValue\":"@ + string_text(s) + "}"@,
        ConfigValueView::NumberValue(n) => "{\"NumberValue\":"@ + int_text(n as int) + "}"@,
        ConfigValueView::PathValue { path, data } => "{\"PathValue\":{\"path\":"@ + string_text(
            path,
        ) + ",\"data\":"@ + image_text(data) + "}}"@,
    }
}

/// The text of one property: its key, a colon, its value.
pub open spec fn entry_text(entry: (Seq<char>, ConfigValueView)) -> Seq<char> {
    string_text(entry.0) + seq![':'] + config_text(entry.1)
}

/// What follows the opening brace of an object of properties, or, with
/// `first` false, what follows one of its members.
pub open spec fn entries_items(entries: Seq<(Seq<char>, ConfigValueView)>, first: bool) -> Seq<
    char,
>
    decreases entries.len(),
{
    if entries.len() == 0 {
        seq!['}']
    } else {
        (if first {
            Seq::<char>::empty()
        } else {
            seq![',']
        }) + entry_text(entries[0]) + entries_items(entries.skip(1), false)
    }
}

/// The text of an element.
pub open spec fn element_text(e: GuiElementView) -> Seq<char> {
    "{\"dimensions\":"@ + rect_text(e.dimensions) + ",\"id\":"@ + string_text(e.id)
        + ",\"data\":{"@ + entries_items(e.data, true) + ",\"name\":"@ + string_text(e.name)
        + "}"@
}

/// What follows the opening bracket of a list of elements, or, with `first`
/// false, what follows one of its members.
pub open spec fn elements_items(elements: Seq<GuiElementView>, first: bool) -> Seq<char>
    decreases elements.len(),
{
    if elements.len() == 0 {
        seq![']']
    } else {
        (if first {
            Seq::<char>::empty()
        } else {
            seq![',']
        }) + element_text(elements[0]) + elements_items(elements.skip(1), false)
    }
}

/// The text of a document.
pub open spec fn document_text(d: LayoutDocumentView) -> Seq<char> {
    "{\"base_element\":"@ + element_text(d.base_element) + ",\"elements\":["@ + elements_items(
        d.elements,
        true,
    ) + "}"@
}

/// The document that `text` stands for: the valid document whose text it
/// is, if there is one.
pub open spec fn decode(text: Seq<char>) -> Option<LayoutDocumentView> {
    if exists|d: LayoutDocumentView| d.valid() && #[trigger] document_text(d) == text {
        Some(choose|d: LayoutDocumentView| d.valid() && #[trigger] document_text(d) == text)
    } else {
        None
    }
}

} // verus!
