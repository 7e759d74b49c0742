//! The layouts of the recognised document types: how the public signals
//! pack the machine-readable zone, and where its name and date-of-birth
//! fields stand.

use vstd::prelude::*;

verus! {

/// The document types, by the tag that the proof declares.
#[derive(Clone, Copy, Debug, PartialEq, Eq, Structural)]
pub enum DocumentKind {
    /// An electronic passport (tag 1).
    Passport,
    /// A national identity card (tag 2).
    IdCard,
    /// Any other tag; decoded with the passport layout.
    Unrecognized,
}

/// Where the fields of a document type stand, and how its signals are packed.
pub struct DocumentLayout {
    /// Byte count of each signal element that carries the zone.
    pub bytes_per_elem: Vec<usize>,
    /// First byte of the name field in the decoded zone.
    pub name_start: usize,
    /// One past the last byte of the name field.
    pub name_end: usize,
    /// First byte of the date-of-birth field.
    pub dob_start: usize,
    /// One past the last byte of the date-of-birth field.
    pub dob_end: usize,
}

/// The document type that a tag declares.
pub open spec fn kind_of(tag: u8) -> DocumentKind {
    if tag == 1 {
        DocumentKind::Passport
    } else if tag == 2 {
        DocumentKind::IdCard
    } else {
        DocumentKind::Unrecognized
    }
}

/// The packing table of a document type.
pub open spec fn table_of(kind: DocumentKind) -> Seq<usize> {
    match kind {
        DocumentKind::IdCard => seq![31usize, 31, 31, 1],
        _ => seq![31usize, 31, 31],
    }
}

/// The byte range of the name field of a document type.
pub open spec fn name_range_of(kind: DocumentKind) -> (nat, nat) {
    match kind {
        DocumentKind::IdCard => (60, 90),
        _ => (5, 44),
    }
}

/// The byte range of the date-of-birth field of a document type.
pub open spec fn dob_range_of(kind: DocumentKind) -> (nat, nat) {
    match kind {
        DocumentKind::IdCard => (30, 36),
        _ => (57, 63),
    }
}

/// The number of signal elements that decoding a document type reads.
pub open spec fn required_signals(tag: u8) -> nat {
    table_of(kind_of(tag)).len()
}

/// A layout record agrees with the tables of a document type.
pub open spec fn layout_matches(l: DocumentLayout, kind: DocumentKind) -> bool {
    &&& l.bytes_per_elem@ == table_of(kind)
    &&& (l.name_start as nat, l.name_end as nat) == name_range_of(kind)
    &&& (l.dob_start as nat, l.dob_end as nat) == dob_range_of(kind)
}

/// The document type that `attestation_id` declares: 1 a passport, 2 an
/// identity card, any other value unrecognised.
pub fn document_kind(attestation_id: u8) -> (r: DocumentKind)
    ensures
        r == kind_of(attestation_id),
{
    if attestation_id == 1 {
        DocumentKind::Passport
    } else if attestation_id == 2 {
        DocumentKind::IdCard
    } else {
        DocumentKind::Unrecognized
    }
}

/// The layout of a document type; an unrecognised type takes the passport's.
pub fn layout(kind: DocumentKind) -> (r: DocumentLayout)
    ensures
        layout_matches(r, kind),
        kind == DocumentKind::Unrecognized ==> layout_matches(r, DocumentKind::Passport),
{
    match kind {
        DocumentKind::IdCard => {
            let r = DocumentLayout {
                bytes_per_elem: vec![31usize, 31, 31, 1],
                name_start: 60,
                name_end: 90,
                dob_start: 30,
                dob_end: 36,
            };
            assert(r.bytes_per_elem@ =~= table_of(kind));
            r
        },
        _ => {
            let r = DocumentLayout {
                bytes_per_elem: vec![31usize, 31, 31],
                name_start: 5,
                name_end: 44,
                dob_start: 57,
                dob_end: 63,
            };
            assert(r.bytes_per_elem@ =~= table_of(kind));
            r
        },
    }
}

} // verus!
