//! Writing a document as text.

use crate::format::{
    bytes_items,
    config_text,
    digits,
    document_text,
    element_text,
    elements_items,
    entries_items,
    escape_char,
    hex_char,
    image_text,
    int_text,
    rect_text,
    string_body,
    string_text,
};
use crate::model::{
    elements_view, entries_view, ConfigValue, GuiElement, ImageData, LayoutDocument, Rect,
};
use crate::format::decode;
use crate::laws::decode_inverts_encode;
use vstd::prelude::*;
use vstd::string::StringExecFns;

verus! {

/// Appends the decimal numeral of `n`.
fn write_digits(out: &mut String, n: u64)
    ensures
        final(out)@ == old(out)@ + digits(n as nat),
    decreases n,
{
    if n >= 10 {
        write_digits(out, n / 10);
    }
    out.push((48u8 + (n % 10) as u8) as char);
    assert(out@ =~= old(out)@ + digits(n as nat));
}

/// Appends the decimal numeral of `i`.
fn write_int(out: &mut String, i: i64)
    ensures
        final(out)@ == old(out)@ + int_text(i as int),
{
    if i < 0 {
        out.push('-');
        let magnitude: u64 = if i == i64::MIN {
            9223372036854775808u64
        } else {
            (-i) as u64
        };
        write_digits(out, magnitude);
        assert(out@ =~= old(out)@ + int_text(i as int));
    } else {
        write_digits(out, i as u64);
    }
}

/// The character of the hexadecimal digit `d`.
fn hex_digit(d: u8) -> (c: char)
    requires
        d < 16,
    ensures
        c == hex_char(d as int),
{
    if d < 10 {
        (48u8 + d) as char
    } else {
        (87u8 + d) as char
    }
}

/// Appends `c` as it stands inside a quoted string.
fn write_char(out: &mut String, c: char)
    ensures
        final(out)@ == old(out)@ + escape_char(c),
{
    proof {
        reveal(escape_char);
    }
    if c == '"' {
        out.append("\\\"");
        proof {
            reveal_strlit("\\\"");
        }
    } else if c == '\\' {
        out.append("\\\\");
        proof {
            reveal_strlit("\\\\");
        }
    } else if c == '\u{8}' {
        out.append("\\b");
        proof {
            reveal_strlit("\\b");
        }
    } else if c == '\u{c}' {
        out.append("\\f");
        proof {
            reveal_strlit("\\f");
        }
    } else if c == '\n' {
        out.append("\\n");
        proof {
            reveal_strlit("\\n");
        }
    } else if c == '\r' {
        out.append("\\r");
        proof {
            reveal_strlit("\\r");
        }
    } else if c == '\t' {
        out.append("\\t");
        proof {
            reveal_strlit("\\t");
        }
    } else if c <= '\u{1f}' {
        let code = c as u32 as u8;
        out.append("\\u00");
        proof {
            reveal_strlit("\\u00");
        }
        out.push(hex_digit(code / 16));
        out.push(hex_digit(code % 16));
    } else {
        out.push(c);
    }
    assert(out@ =~= old(out)@ + escape_char(c));
}

/// Appends the quoted string `s`.
fn write_string(out: &mut String, s: &str)
    ensures
        final(out)@ == old(out)@ + string_text(s@),
{
    out.push('"');
    let ghost start = out@;
    assert(s@.skip(0) == s@);
    for c in it: s.chars()
        invariant
            it.seq() == s@,
            start + string_body(s@) == out@ + string_body(s@.skip(it.index() as int)),
    {
        let ghost before = out@;
        let ghost rest = s@.skip(it.index() as int);
        write_char(out, c);
        proof {
            assert(rest[0] == c);
            assert(rest.skip(1) == s@.skip(it.index() + 1));
            assert(before + string_body(rest) =~= out@ + string_body(rest.skip(1)));
        }
    }
    let ghost before = out@;
    assert(s@.skip(s@.len() as int).len() == 0);
    out.push('"');
    assert(out@ =~= before + string_body(s@.skip(s@.len() as int)));
    assert(out@ =~= old(out)@ + string_text(s@));
}

/// Appends the text of a rectangle.
fn write_rect(out: &mut String, r: &Rect)
    ensures
        final(out)@ == old(out)@ + rect_text(*r),
{
    out.append("{\"x\":");
    write_digits(out, r.x as u64);
    out.append(",\"y\":");
    write_digits(out, r.y as u64);
    out.append(",\"width\":");
    write_digits(out, r.width as u64);
    out.append(",\"height\":");
    write_digits(out, r.height as u64);
    out.append("}");
    assert(out@ =~= old(out)@ + rect_text(*r));
}

/// Appends a list of bytes, from behind its opening bracket on.
fn write_bytes(out: &mut String, bytes: &Vec<u8>)
    ensures
        final(out)@ == old(out)@ + bytes_items(bytes@, true),
{
    let mut k: usize = 0;
    assert(bytes@.skip(0) == bytes@);
    while k < bytes.len()
        invariant
            k <= bytes.len(),
            old(out)@ + bytes_items(bytes@, true) == out@ + bytes_items(
                bytes@.skip(k as int),
                k == 0,
            ),
        decreases bytes.len() - k,
    {
        let ghost before = out@;
        let ghost rest = bytes@.skip(k as int);
        if k > 0 {
            out.push(',');
        }
        write_digits(out, bytes[k] as u64);
        proof {
            assert(rest[0] == bytes@[k as int]);
            assert(rest.skip(1) == bytes@.skip(k + 1));
            assert(before + bytes_items(rest, k == 0) =~= out@ + bytes_items(rest.skip(1), false));
        }
        k += 1;
    }
    let ghost before = out@;
    out.push(']');
    assert(out@ =~= before + bytes_items(bytes@.skip(k as int), k == 0));
}

/// Appends the text of an embedded image.
fn write_image(out: &mut String, image: &ImageData)
    ensures
        final(out)@ == old(out)@ + image_text(image@),
{
    out.append("{\"width\":");
    write_digits(out, image.width as u64);
    out.append(",\"height\":");
    write_digits(out, image.height as u64);
    out.append(",\"data\":[");
    write_bytes(out, &image.data);
    out.append("}");
    assert(out@ =~= old(out)@ + image_text(image@));
}

/// Appends the text of a property value.
fn write_config(out: &mut String, value: &ConfigValue)
    ensures
        final(out)@ == old(out)@ + config_text(value@),
{
    match value {
        ConfigValue::StringValue(s) => {
            out.append("{\"StringValue\":");
            write_string(out, s.as_str());
            out.append("}");
        },
        ConfigValue::NumberValue(n) => {
            out.append("{\"NumberValue\":");
            write_int(out, *n);
            out.append("}");
        },
        ConfigValue::PathValue { path, data } => {
            out.append("{\"PathValue\":{\"path\":");
            write_string(out, path.as_str());
            out.append(",\"data\":");
            write_image(out, data);
            out.append("}}");
        },
    }
    assert(out@ =~= old(out)@ + config_text(value@));
}

/// Appends a list of properties, from behind its opening brace on.
fn write_entries(out: &mut String, entries: &Vec<(String, ConfigValue)>)
    ensures
        final(out)@ == old(out)@ + entries_items(entries_view(entries@), true),
{
    let ghost all = entries_view(entries@);
    let mut k: usize = 0;
    assert(all.skip(0) == all);
    while k < entries.len()
        invariant
            k <= entries.len(),
            all == entries_view(entries@),
            old(out)@ + entries_items(all, true) == out@ + entries_items(
                all.skip(k as int),
                k == 0,
            ),
        decreases entries.len() - k,
    {
        let ghost before = out@;
        let ghost rest = all.skip(k as int);
        if k > 0 {
            out.push(',');
        }
        write_string(out, entries[k].0.as_str());
        out.push(':');
        write_config(out, &entries[k].1);
        proof {
            assert(rest[0] == (entries@[k as int].0@, entries@[k as int].1@));
            assert(rest.skip(1) == all.skip(k + 1));
            assert(before + entries_items(rest, k == 0) =~= out@ + entries_items(
                rest.skip(1),
                false,
            ));
        }
        k += 1;
    }
    let ghost before = out@;
    out.push('}');
    assert(out@ =~= before + entries_items(all.skip(k as int), k == 0));
}

/// Appends the text of an element.
fn write_element(out: &mut String, element: &GuiElement)
    ensures
        final(out)@ == old(out)@ + element_text(element@),
{
    out.append("{\"dimensions\":");
    write_rect(out, &element.dimensions);
    out.append(",\"id\":");
    write_string(out, element.id.as_str());
    out.append(",\"data\":{");
    write_entries(out, &element.data);
    out.append(",\"name\":");
    write_string(out, element.name.as_str());
    out.append("}");
    assert(out@ =~= old(out)@ + element_text(element@));
}

/// Appends a list of elements, from behind its opening bracket on.
fn write_elements(out: &mut String, elements: &Vec<GuiElement>)
    ensures
        final(out)@ == old(out)@ + elements_items(elements_view(elements@), true),
{
    let ghost all = elements_view(elements@);
    let mut k: usize = 0;
    assert(all.skip(0) == all);
    while k < elements.len()
        invariant
            k <= elements.len(),
            all == elements_view(elements@),
            old(out)@ + elements_items(all, true) == out@ + elements_items(
                all.skip(k as int),
                k == 0,
            ),
        decreases elements.len() - k,
    {
        let ghost before = out@;
        let ghost rest = all.skip(k as int);
        if k > 0 {
            out.push(',');
        }
        write_element(out, &elements[k]);
        proof {
            assert(rest[0] == elements@[k as int]@);
            assert(rest.skip(1) == all.skip(k + 1));
            assert(before + elements_items(rest, k == 0) =~= out@ + elements_items(
                rest.skip(1),
                false,
            ));
        }
        k += 1;
    }
    let ghost before = out@;
    out.push(']');
    assert(out@ =~= before + elements_items(all.skip(k as int), k == 0));
}

/// The text of `document`, as it is written to a `.mcgf` file: compact JSON
/// that any JSON reader of the schema takes. Every document has a text;
/// which text it is depends on the document alone, and the text of a valid
/// document stands for that document and for no other.
pub fn serialize(document: &LayoutDocument) -> (text: String)
    ensures
        text@ == document_text(document@),
        document@.valid() ==> decode(text@) == Some(document@),
{
    proof {
        if document@.valid() {
            decode_inverts_encode(document@);
        }
    }
    let mut out = String::new();
    out.append("{\"base_element\":");
    write_element(&mut out, &document.base_element);
    out.append(",\"elements\":[");
    write_elements(&mut out, &document.elements);
    out.append("}");
    assert(out@ =~= document_text(document@));
    out
}

} // verus!
