//! Tolerant matching of an identity field against a document: first in its
//! extracted text, then in its raw bytes.

use vstd::prelude::*;
use vstd::utf8::valid_utf8;
use vstd::string::StringSliceAdditionalSpecFns;

verus! {

/// ASCII upper case of a byte; other bytes are unchanged.
pub open spec fn ascii_upper(b: u8) -> u8 {
    if 97u8 <= b && b <= 122u8 {
        (b - 32) as u8
    } else {
        b
    }
}

/// ASCII lower case of a byte; other bytes are unchanged.
pub open spec fn ascii_lower(b: u8) -> u8 {
    if 65u8 <= b && b <= 90u8 {
        (b + 32) as u8
    } else {
        b
    }
}

/// Byte equality, ignoring ASCII case where `fold` holds.
pub open spec fn bytes_agree(a: u8, b: u8, fold: bool) -> bool {
    if fold {
        ascii_lower(a) == ascii_lower(b)
    } else {
        a == b
    }
}

/// The window of `hay` at `i` agrees with `needle`.
pub open spec fn window_matches(hay: Seq<u8>, needle: Seq<u8>, i: int, fold: bool) -> bool {
    0 <= i && i + needle.len() <= hay.len() && forall|k: int|
        0 <= k < needle.len() ==> bytes_agree(#[trigger] hay[i + k], needle[k], fold)
}

/// Some window of `hay` agrees with `needle`.
pub open spec fn contains_window(hay: Seq<u8>, needle: Seq<u8>, fold: bool) -> bool {
    exists|i: int| window_matches(hay, needle, i, fold)
}

/// A needle in ASCII upper case.
pub open spec fn upper_seq(s: Seq<u8>) -> Seq<u8> {
    Seq::new(s.len(), |k: int| ascii_upper(s[k]))
}

/// The extracted text holds the needle, where the needle is valid text:
/// the text's bytes hold the needle's bytes.
pub open spec fn found_in_text(text_bytes: Seq<u8>, needle_upper: Seq<u8>) -> bool {
    valid_utf8(needle_upper) && contains_window(text_bytes, needle_upper, false)
}

/// The outcome of the cross-check of `needle` against a document given by
/// its raw bytes and its upper-cased text (as UTF-8 bytes).
pub open spec fn document_matches(document: Seq<u8>, text_bytes: Seq<u8>, needle: Seq<u8>) -> bool {
    needle.len() > 0 && (found_in_text(text_bytes, upper_seq(needle)) || contains_window(
        document,
        upper_seq(needle),
        true,
    ))
}

/// An empty needle matches no document.
pub proof fn lemma_empty_needle_never_matches(document: Seq<u8>, text_bytes: Seq<u8>)
    ensures
        !document_matches(document, text_bytes, Seq::empty()),
{
}

/// A non-empty needle that the document's raw bytes hold, ignoring ASCII
/// case, matches whatever the extracted text is.
pub proof fn lemma_raw_bytes_suffice(
    document: Seq<u8>,
    text_bytes: Seq<u8>,
    needle: Seq<u8>,
    at: int,
)
    requires
        needle.len() > 0,
        window_matches(document, needle, at, true),
    ensures
        document_matches(document, text_bytes, needle),
{
    assert forall|k: int| 0 <= k < needle.len() implies bytes_agree(
        #[trigger] document[at + k],
        upper_seq(needle)[k],
        true,
    ) by {
        assert(bytes_agree(document[at + k], needle[k], true));
    }
    assert(window_matches(document, upper_seq(needle), at, true));
}

/// ASCII upper case of a byte.
fn to_upper(b: u8) -> (r: u8)
    ensures
        r == ascii_upper(b),
{
    if 97u8 <= b && b <= 122u8 {
        b - 32
    } else {
        b
    }
}

/// ASCII lower case of a byte.
fn to_lower(b: u8) -> (r: u8)
    ensures
        r == ascii_lower(b),
{
    if 65u8 <= b && b <= 90u8 {
        b + 32
    } else {
        b
    }
}

/// Relies on core::str::from_utf8: it succeeds exactly on valid UTF-8.
#[verifier::external_body]
fn is_valid_utf8(bytes: &[u8]) -> (r: bool)
    ensures
        r == valid_utf8(bytes@),
{
    core::str::from_utf8(bytes).is_ok()
}

/// Whether some window of `hay` agrees with `needle`, ignoring ASCII case
/// where `fold` holds.
pub fn find_window(hay: &[u8], needle: &[u8], fold: bool) -> (r: bool)
    ensures
        r == contains_window(hay@, needle@, fold),
{
    let n = hay.len();
    let m = needle.len();
    if m > n {
        return false;
    }
    let mut i: usize = 0;
    while i <= n - m
        invariant
            n == hay@.len(),
            m == needle@.len(),
            m <= n,
            i <= n - m + 1,
            forall|j: int| 0 <= j < i ==> !window_matches(hay@, needle@, j, fold),
        decreases n - m + 1 - i,
    {
        let mut k: usize = 0;
        let mut agree = true;
        while k < m && agree
            invariant
                n == hay@.len(),
                m == needle@.len(),
                i + m <= n,
                k <= m,
                agree ==> forall|q: int| 0 <= q < k ==> bytes_agree(#[trigger] hay@[i + q], needle@[q], fold),
                !agree ==> !window_matches(hay@, needle@, i as int, fold),
            decreases m - k + (if agree { 1int } else { 0int }),
        {
            let a = hay[i + k];
            let b = needle[k];
            let same = if fold {
                to_lower(a) == to_lower(b)
            } else {
                a == b
            };
            if !same {
                agree = false;
                assert(!bytes_agree(hay@[i + k], needle@[k as int], fold));
            } else {
                k = k + 1;
            }
        }
        if agree {
            assert(window_matches(hay@, needle@, i as int, fold));
            return true;
        }
        i = i + 1;
    }
    assert forall|j: int| !window_matches(hay@, needle@, j, fold) by {
        if 0 <= j && j + m <= n {
            assert(j < i);
        }
    }
    false
}

/// Tolerant search of `needle` in a document: with ASCII case folding, in
/// the upper-cased extracted text `all_text_upper` where the folded needle
/// is valid text, else or then in the raw bytes `pdf_bytes`. An empty
/// needle matches nothing.
pub fn search_in_pdf(pdf_bytes: &[u8], all_text_upper: &str, needle: &[u8]) -> (r: bool)
    ensures
        r == document_matches(pdf_bytes@, all_text_upper.spec_bytes(), needle@),
{
    if needle.len() == 0 {
        return false;
    }
    let mut needle_upper: Vec<u8> = Vec::new();
    let mut k: usize = 0;
    while k < needle.len()
        invariant
            k <= needle@.len(),
            needle_upper@ == upper_seq(needle@.subrange(0, k as int)),
        decreases needle@.len() - k,
    {
        needle_upper.push(to_upper(needle[k]));
        k = k + 1;
        assert(needle_upper@ =~= upper_seq(needle@.subrange(0, k as int)));
    }
    assert(needle@.subrange(0, needle@.len() as int) =~= needle@);
    if is_valid_utf8(needle_upper.as_slice()) {
        if find_window(all_text_upper.as_bytes(), needle_upper.as_slice(), false) {
            return true;
        }
    }
    find_window(pdf_bytes, needle_upper.as_slice(), true)
}

} // verus!
