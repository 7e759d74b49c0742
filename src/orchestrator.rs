//! The verification run: proof check, document gate, field decoding and
//! cross-checks, always ending in an outcome of the same six values.

use vstd::prelude::*;
use vstd::utf8::encode_utf8;
use vstd::string::StringSliceAdditionalSpecFns;
use crate::layout::{
    document_kind, dob_range_of, kind_of, layout, name_range_of, required_signals, table_of,
};
use crate::matching::{document_matches, search_in_pdf};
use crate::mrz::{dob_of, extract_dob, extract_name_parts, name_of};
use crate::text::{document_text, document_text_of, pages_view};
use crate::unpack::{table_fits, unpack_revealed_data, unpacked};

verus! {

/// The committed outcome of one run, in commitment order.
#[derive(Clone, Copy, Debug, PartialEq, Eq, Structural)]
pub struct Outcome {
    pub proof_valid: bool,
    pub document_valid: bool,
    pub surname_match: bool,
    pub given_name_match: bool,
    pub dob_match: bool,
    pub signal_count: u32,
}

/// Surname, given name and date of birth that the signals carry, decoded
/// with the layout of the declared document type.
pub open spec fn decoded_fields(public_inputs: Seq<[u8; 32]>, tag: u8) -> (Seq<u8>, Seq<u8>, Seq<u8>) {
    let kind = kind_of(tag);
    let table = table_of(kind);
    let buffer = unpacked(public_inputs, table, table.len());
    let names = name_of(buffer, name_range_of(kind).0, name_range_of(kind).1);
    (names.0, names.1, dob_of(buffer, dob_range_of(kind).0, dob_range_of(kind).1))
}

/// The outcome owed for a run, given the proof check's result, the
/// signature check's result and the document's searchable text.
pub open spec fn outcome_of(
    proof_valid: bool,
    public_inputs: Seq<[u8; 32]>,
    pdf: Seq<u8>,
    tag: u8,
    signature_valid: bool,
    text: Seq<char>,
) -> Outcome {
    let count = public_inputs.len() as u32;
    if pdf.len() == 0 || !signature_valid {
        Outcome {
            proof_valid,
            document_valid: pdf.len() > 0 && signature_valid,
            surname_match: false,
            given_name_match: false,
            dob_match: false,
            signal_count: count,
        }
    } else {
        let fields = decoded_fields(public_inputs, tag);
        let text_bytes = encode_utf8(text);
        Outcome {
            proof_valid,
            document_valid: true,
            surname_match: document_matches(pdf, text_bytes, fields.0),
            given_name_match: document_matches(pdf, text_bytes, fields.1),
            dob_match: document_matches(pdf, text_bytes, fields.2),
            signal_count: count,
        }
    }
}

/// The outcome of a whole run, from its inputs and what the proof check,
/// the signature check and the text extraction gave.
pub open spec fn run_outcome(
    proof_valid: bool,
    public_inputs: Seq<[u8; 32]>,
    pdf: Seq<u8>,
    tag: u8,
    signature_valid: bool,
    pages: Option<Seq<Seq<char>>>,
) -> Outcome {
    outcome_of(
        proof_valid,
        public_inputs,
        pdf,
        tag,
        signature_valid,
        document_text_of(pages),
    )
}

/// Decodes surname, given name and date of birth from the public signals,
/// with the layout of the document type that `attestation_id` declares.
pub fn decode_fields(public_inputs: &[[u8; 32]], attestation_id: u8) -> (r: (
    Vec<u8>,
    Vec<u8>,
    Vec<u8>,
))
    requires
        public_inputs@.len() >= required_signals(attestation_id),
    ensures
        (r.0@, r.1@, r.2@) == decoded_fields(public_inputs@, attestation_id),
{
    let kind = document_kind(attestation_id);
    let l = layout(kind);
    let count = l.bytes_per_elem.len();
    assert(table_fits(l.bytes_per_elem@, count as nat));
    let buffer = unpack_revealed_data(public_inputs, count, l.bytes_per_elem.as_slice());
    let (surname, given) = extract_name_parts(buffer.as_slice(), l.name_start, l.name_end);
    let dob = extract_dob(buffer.as_slice(), l.dob_start, l.dob_end);
    (surname, given, dob)
}

/// The decisions of a run once the proof check, the signature check and the
/// text extraction have answered. Without a document every document check
/// is `false`; with one whose signature fails, every match is `false`;
/// otherwise each decoded field is searched in the document. The last value
/// is always the number of signals.
pub fn evaluate(
    proof_valid: bool,
    public_inputs: &[[u8; 32]],
    pdf_bytes: &[u8],
    attestation_id: u8,
    signature_valid: bool,
    all_text_upper: &str,
) -> (r: Outcome)
    requires
        pdf_bytes@.len() > 0 && signature_valid ==> public_inputs@.len() >= required_signals(
            attestation_id,
        ),
    ensures
        r == outcome_of(
            proof_valid,
            public_inputs@,
            pdf_bytes@,
            attestation_id,
            signature_valid,
            all_text_upper@,
        ),
{
    let signal_count = public_inputs.len() as u32;
    let mut r = Outcome {
        proof_valid,
        document_valid: false,
        surname_match: false,
        given_name_match: false,
        dob_match: false,
        signal_count,
    };
    if pdf_bytes.len() == 0 {
        return r;
    }
    r.document_valid = signature_valid;
    if !signature_valid {
        return r;
    }
    let (surname, given, dob) = decode_fields(public_inputs, attestation_id);
    assert(all_text_upper.spec_bytes() == encode_utf8(all_text_upper@));
    if surname.len() > 0 {
        r.surname_match = search_in_pdf(pdf_bytes, all_text_upper, surname.as_slice());
    }
    if given.len() > 0 {
        r.given_name_match = search_in_pdf(pdf_bytes, all_text_upper, given.as_slice());
    }
    if dob.len() > 0 {
        r.dob_match = search_in_pdf(pdf_bytes, all_text_upper, dob.as_slice());
    }
    r
}

/// One verification run, once the proof check has answered `proof_valid`:
/// the document checks follow `evaluate`, on the text of the extracted
/// `pages` (`None` where extraction failed).
pub fn verify_run(
    proof_valid: bool,
    public_inputs: &[[u8; 32]],
    pdf_bytes: &[u8],
    attestation_id: u8,
    signature_valid: bool,
    pages: Option<Vec<String>>,
) -> (r: Outcome)
    requires
        pdf_bytes@.len() > 0 && signature_valid ==> public_inputs@.len() >= required_signals(
            attestation_id,
        ),
    ensures
        r == run_outcome(
            proof_valid,
            public_inputs@,
            pdf_bytes@,
            attestation_id,
            signature_valid,
            match pages {
                Some(p) => Some(pages_view(p@)),
                None => None,
            },
        ),
{
    let text = document_text(pages);
    evaluate(proof_valid, public_inputs, pdf_bytes, attestation_id, signature_valid, text.as_str())
}

/// Without a document the outcome is the proof check, four `false` and the
/// signal count, whatever the other inputs.
pub proof fn lemma_no_document(
    proof_valid: bool,
    public_inputs: Seq<[u8; 32]>,
    tag: u8,
    signature_valid: bool,
    text: Seq<char>,
)
    ensures
        outcome_of(proof_valid, public_inputs, Seq::empty(), tag, signature_valid, text) == (
        Outcome {
            proof_valid,
            document_valid: false,
            surname_match: false,
            given_name_match: false,
            dob_match: false,
            signal_count: public_inputs.len() as u32,
        }),
{
}

/// A document whose signature fails contributes no match.
pub proof fn lemma_invalid_signature_no_match(
    proof_valid: bool,
    public_inputs: Seq<[u8; 32]>,
    pdf: Seq<u8>,
    tag: u8,
    text: Seq<char>,
)
    ensures
        ({
            let o = outcome_of(proof_valid, public_inputs, pdf, tag, false, text);
            !o.document_valid && !o.surname_match && !o.given_name_match && !o.dob_match
        }),
{
}

/// Two runs on the same inputs, with the same answers from the proof check,
/// the signature check and the text extraction, give the same outcome.
pub proof fn lemma_run_deterministic(
    proof_valid: bool,
    public_inputs: Seq<[u8; 32]>,
    pdf: Seq<u8>,
    tag: u8,
    signature_valid: bool,
    pages: Option<Seq<Seq<char>>>,
    other_proof_valid: bool,
    other_inputs: Seq<[u8; 32]>,
    other_pdf: Seq<u8>,
    other_tag: u8,
    other_signature_valid: bool,
    other_pages: Option<Seq<Seq<char>>>,
)
    requires
        proof_valid == other_proof_valid,
        public_inputs == other_inputs,
        pdf == other_pdf,
        tag == other_tag,
        signature_valid == other_signature_valid,
        pages == other_pages,
    ensures
        run_outcome(proof_valid, public_inputs, pdf, tag, signature_valid, pages) == run_outcome(
            other_proof_valid,
            other_inputs,
            other_pdf,
            other_tag,
            other_signature_valid,
            other_pages,
        ),
{
}

/// An unrecognised tag decodes exactly as a passport does.
pub proof fn lemma_unrecognized_tag_decodes_as_passport(public_inputs: Seq<[u8; 32]>, tag: u8)
    requires
        tag != 1 && tag != 2,
    ensures
        decoded_fields(public_inputs, tag) == decoded_fields(public_inputs, 1),
{
}

} // verus!
