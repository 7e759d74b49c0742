//! The document text that the cross-checks search: the extracted pages,
//! joined by single spaces and upper-cased.

use vstd::prelude::*;

verus! {

/// The characters of `s` in upper case, as Unicode defines it.
pub uninterp spec fn upper_of(s: Seq<char>) -> Seq<char>;

/// Pages joined, a single space between each two.
pub open spec fn joined(pages: Seq<Seq<char>>) -> Seq<char>
    decreases pages.len(),
{
    if pages.len() == 0 {
        Seq::empty()
    } else if pages.len() == 1 {
        pages[0]
    } else {
        joined(pages.drop_last()) + seq![' '] + pages.last()
    }
}

/// The text of each page.
pub open spec fn pages_view(pages: Seq<String>) -> Seq<Seq<char>> {
    pages.map_values(|p: String| p@)
}

/// The searchable text of a document whose extraction gave `pages`; empty
/// where extraction failed.
pub open spec fn document_text_of(pages: Option<Seq<Seq<char>>>) -> Seq<char> {
    match pages {
        Some(p) => upper_of(joined(p)),
        None => Seq::empty(),
    }
}

/// Relies on `[String]::join`: the pages in order, the separator between
/// each two.
#[verifier::external_body]
fn join_with_spaces(pages: &[String]) -> (r: String)
    ensures
        r@ == joined(pages_view(pages@)),
{
    pages.join(" ")
}

/// Relies on str::to_uppercase: the result depends on the characters alone,
/// and the empty string stays empty.
#[verifier::external_body]
fn uppercase(s: &str) -> (r: String)
    ensures
        r@ == upper_of(s@),
        s@.len() == 0 ==> r@.len() == 0,
{
    s.to_uppercase()
}

/// The searchable text of a document: its extracted pages joined by single
/// spaces and upper-cased, or empty where extraction failed (`None`).
pub fn document_text(pages: Option<Vec<String>>) -> (r: String)
    ensures
        r@ == document_text_of(
            match pages {
                Some(p) => Some(pages_view(p@)),
                None => None,
            },
        ),
{
    match pages {
        Some(p) => {
            let all = join_with_spaces(p.as_slice());
            uppercase(all.as_str())
        },
        None => String::new(),
    }
}

} // verus!
