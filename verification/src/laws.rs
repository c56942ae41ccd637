//! The laws of the text format: a text stands for one document at most, and
//! the text of a document stands for that document.

use crate::element::lemma_document_unique;
use crate::format::{decode, document_text};
use crate::model::LayoutDocumentView;
use vstd::prelude::*;

verus! {

/// Two valid documents with the same text are the same document.
pub proof fn encoding_is_injective(d1: LayoutDocumentView, d2: LayoutDocumentView)
    requires
        d1.valid(),
        d2.valid(),
        document_text(d1) == document_text(d2),
    ensures
        d1 == d2,
{
    let none = Seq::<char>::empty();
    lemma_document_unique(d1, d2, none, none);
}

/// Reading inverts writing: the text of a valid document stands for that
/// document and for no other, so whoever reads what was written gets back
/// the same fields, the same elements in the same order, and the same
/// properties.
pub proof fn decode_inverts_encode(d: LayoutDocumentView)
    requires
        d.valid(),
    ensures
        decode(document_text(d)) == Some(d),
{
    let text = document_text(d);
    let found = choose|other: LayoutDocumentView|
        other.valid() && #[trigger] document_text(other) == text;
    encoding_is_injective(found, d);
}

/// Writing inverts reading: a text that stands for a document is the text
/// of that document.
pub proof fn encode_inverts_decode(text: Seq<char>)
    requires
        decode(text) is Some,
    ensures
        decode(text)->0.valid(),
        document_text(decode(text)->0) == text,
{
}

} // verus!
