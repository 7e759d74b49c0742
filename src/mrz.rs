//! Name and date-of-birth fields of a decoded machine-readable zone.

use vstd::prelude::*;

verus! {

/// A filler byte of the machine-readable zone: `<` or a null byte.
pub open spec fn is_filler(b: u8) -> bool {
    b == 60u8 || b == 0u8
}

/// The `<<` separator that ends the surname stands at `p`.
pub open spec fn sep_at(s: Seq<u8>, p: int) -> bool {
    0 <= p && p + 1 < s.len() && s[p] == 60u8 && s[p + 1] == 60u8
}

/// The first separator at or after `from`, if any.
pub open spec fn first_sep_from(s: Seq<u8>, from: nat) -> Option<nat>
    decreases s.len() - from,
{
    if from + 1 >= s.len() {
        None
    } else if sep_at(s, from as int) {
        Some(from)
    } else {
        first_sep_from(s, from + 1)
    }
}

/// The first `<<` separator of a name field, if any.
pub open spec fn first_sep(s: Seq<u8>) -> Option<nat> {
    first_sep_from(s, 0)
}

/// The length of `s` without its trailing filler: one past the last byte
/// that is no filler, or zero.
pub open spec fn kept_len(s: Seq<u8>) -> nat
    decreases s.len(),
{
    if s.len() == 0 {
        0
    } else if !is_filler(s.last()) {
        s.len()
    } else {
        kept_len(s.drop_last())
    }
}

/// `s` with its trailing filler trimmed.
pub open spec fn trim_filler(s: Seq<u8>) -> Seq<u8> {
    s.subrange(0, kept_len(s) as int)
}

/// `s` with every `<` turned into a space.
pub open spec fn spaced(s: Seq<u8>) -> Seq<u8> {
    Seq::new(s.len(), |k: int| if s[k] == 60u8 { 32u8 } else { s[k] })
}

/// `s` without any filler byte.
pub open spec fn strip_filler(s: Seq<u8>) -> Seq<u8>
    decreases s.len(),
{
    if s.len() == 0 {
        Seq::empty()
    } else if is_filler(s.last()) {
        strip_filler(s.drop_last())
    } else {
        strip_filler(s.drop_last()).push(s.last())
    }
}

/// The byte range `[start, end)` of `buffer` can be read.
pub open spec fn range_readable(len: nat, start: nat, end: nat) -> bool {
    start < len && end <= len && start <= end
}

/// Surname and given name of a name field.
pub open spec fn name_parts(field: Seq<u8>) -> (Seq<u8>, Seq<u8>) {
    match first_sep(field) {
        Some(p) => (
            field.subrange(0, p as int),
            spaced(trim_filler(field.subrange(p + 2int, field.len() as int))),
        ),
        None => (trim_filler(field), Seq::empty()),
    }
}

/// Surname and given name read from the range `[start, end)` of a buffer;
/// both empty where the range cannot be read.
pub open spec fn name_of(buffer: Seq<u8>, start: nat, end: nat) -> (Seq<u8>, Seq<u8>) {
    if range_readable(buffer.len(), start, end) {
        name_parts(buffer.subrange(start as int, end as int))
    } else {
        (Seq::empty(), Seq::empty())
    }
}

/// The date of birth read from the range `[start, end)` of a buffer, its
/// filler removed; empty where the range cannot be read.
pub open spec fn dob_of(buffer: Seq<u8>, start: nat, end: nat) -> Seq<u8> {
    if range_readable(buffer.len(), start, end) {
        strip_filler(buffer.subrange(start as int, end as int))
    } else {
        Seq::empty()
    }
}

proof fn lemma_first_sep_from(s: Seq<u8>, from: nat)
    ensures
        match first_sep_from(s, from) {
            Some(p) => from <= p && sep_at(s, p as int) && forall|q: int|
                from <= q < p ==> !sep_at(s, q),
            None => forall|q: int| from <= q ==> !sep_at(s, q),
        },
    decreases s.len() - from,
{
    if from + 1 < s.len() && !sep_at(s, from as int) {
        lemma_first_sep_from(s, from + 1);
    }
}

proof fn lemma_kept_len(s: Seq<u8>)
    ensures
        kept_len(s) <= s.len(),
        forall|k: int| kept_len(s) <= k < s.len() ==> is_filler(#[trigger] s[k]),
        kept_len(s) > 0 ==> !is_filler(s[kept_len(s) - 1]),
    decreases s.len(),
{
    if s.len() > 0 && is_filler(s.last()) {
        lemma_kept_len(s.drop_last());
        assert forall|k: int| kept_len(s) <= k < s.len() implies is_filler(#[trigger] s[k]) by {
            if k < s.len() - 1 {
                assert(s.drop_last()[k] == s[k]);
            }
        }
    }
}

/// The index of the first `<<` separator of `field`, if any.
fn find_separator(field: &[u8]) -> (r: Option<usize>)
    ensures
        match r {
            Some(p) => first_sep(field@) == Some(p as nat),
            None => first_sep(field@) is None,
        },
{
    let n = field.len();
    let mut i: usize = 0;
    while n > 0 && i < n - 1
        invariant
            n == field@.len(),
            i <= n,
            first_sep(field@) == first_sep_from(field@, i as nat),
        decreases n - i,
    {
        if field[i] == 60u8 && field[i + 1] == 60u8 {
            return Some(i);
        }
        i = i + 1;
    }
    None
}

/// One past the last byte of `s[from..]` that is no filler, counted from
/// `from`, or zero.
fn kept_end(s: &[u8], from: usize) -> (r: usize)
    requires
        from <= s@.len(),
    ensures
        r as nat == kept_len(s@.subrange(from as int, s@.len() as int)),
{
    let n = s.len();
    let ghost t = s@.subrange(from as int, s@.len() as int);
    let mut end: usize = n - from;
    assert(t.subrange(0, end as int) =~= t);
    while end > 0 && (s[from + end - 1] == 60u8 || s[from + end - 1] == 0u8)
        invariant
            from + end <= n,
            n == s@.len(),
            t == s@.subrange(from as int, s@.len() as int),
            kept_len(t) == kept_len(t.subrange(0, end as int)),
        decreases end,
    {
        proof {
            assert(t.subrange(0, end as int).drop_last() =~= t.subrange(0, end - 1));
            assert(t.subrange(0, end as int).last() == s@[from + end - 1]);
        }
        end = end - 1;
    }
    proof {
        if end > 0 {
            assert(t.subrange(0, end as int).last() == s@[from + end - 1]);
        }
        assert(t.subrange(0, end as int).len() == end);
    }
    end
}

/// Copies `s[from..from + len]`, turning each `<` into a space where `space` holds.
fn copy_range(s: &[u8], from: usize, len: usize, space: bool) -> (r: Vec<u8>)
    requires
        from + len <= s@.len(),
    ensures
        space ==> r@ == spaced(s@.subrange(from as int, from + len)),
        !space ==> r@ == s@.subrange(from as int, from + len),
{
    let n = s.len();
    let mut r: Vec<u8> = Vec::new();
    let mut k: usize = 0;
    while k < len
        invariant
            from + len <= n,
            n == s@.len(),
            k <= len,
            space ==> r@ == spaced(s@.subrange(from as int, from + k)),
            !space ==> r@ == s@.subrange(from as int, from + k),
        decreases len - k,
    {
        let b = s[from + k];
        if space && b == 60u8 {
            r.push(32u8);
        } else {
            r.push(b);
        }
        k = k + 1;
        assert(spaced(s@.subrange(from as int, from + k)) =~= spaced(
            s@.subrange(from as int, from + k - 1),
        ).push(if b == 60u8 { 32u8 } else { b }));
        assert(s@.subrange(from as int, from + k) =~= s@.subrange(from as int, from + k - 1).push(b));
    }
    r
}

/// Splits the name field `[name_start, name_end)` of a decoded buffer into
/// surname and given name. The surname ends at the first `<<`; the given
/// name follows it, trailing filler trimmed and each inner `<` turned into a
/// space. Without a separator the whole field, trailing filler trimmed, is
/// the surname and the given name is empty. Both are empty where the range
/// cannot be read.
pub fn extract_name_parts(mrz_bytes: &[u8], name_start: usize, name_end: usize) -> (r: (
    Vec<u8>,
    Vec<u8>,
))
    ensures
        (r.0@, r.1@) == name_of(mrz_bytes@, name_start as nat, name_end as nat),
{
    if name_start >= mrz_bytes.len() || name_end > mrz_bytes.len() || name_start > name_end {
        return (Vec::new(), Vec::new());
    }
    let field = slice_range(mrz_bytes, name_start, name_end);
    let ghost f = field@;
    assert(f == mrz_bytes@.subrange(name_start as int, name_end as int));
    match find_separator(&field) {
        Some(pos) => {
            proof {
                lemma_first_sep_from(f, 0);
            }
            let surname = copy_range(&field, 0, pos, false);
            let start = pos + 2;
            let end = kept_end(&field, start);
            proof {
                lemma_kept_len(f.subrange(start as int, f.len() as int));
                assert(f.subrange(start as int, f.len() as int).subrange(0, end as int)
                    =~= f.subrange(start as int, start + end));
            }
            let given = copy_range(&field, start, end, true);
            (surname, given)
        },
        None => {
            let end = kept_end(&field, 0);
            proof {
                lemma_kept_len(f);
                assert(f.subrange(0, f.len() as int) =~= f);
            }
            let surname = copy_range(&field, 0, end, false);
            (surname, Vec::new())
        },
    }
}

/// A copy of `s[start..end]`.
fn slice_range(s: &[u8], start: usize, end: usize) -> (r: Vec<u8>)
    requires
        start <= end <= s@.len(),
    ensures
        r@ == s@.subrange(start as int, end as int),
{
    copy_range(s, start, end - start, false)
}

/// The date of birth in `[dob_start, dob_end)` of a decoded buffer, with
/// every filler byte removed; empty where the range cannot be read.
pub fn extract_dob(mrz_bytes: &[u8], dob_start: usize, dob_end: usize) -> (r: Vec<u8>)
    ensures
        r@ == dob_of(mrz_bytes@, dob_start as nat, dob_end as nat),
{
    if dob_start >= mrz_bytes.len() || dob_end > mrz_bytes.len() || dob_start > dob_end {
        return Vec::new();
    }
    let ghost field = mrz_bytes@.subrange(dob_start as int, dob_end as int);
    let mut r: Vec<u8> = Vec::new();
    let mut k: usize = dob_start;
    while k < dob_end
        invariant
            dob_start <= k <= dob_end <= mrz_bytes@.len(),
            field == mrz_bytes@.subrange(dob_start as int, dob_end as int),
            r@ == strip_filler(field.subrange(0, k - dob_start)),
        decreases dob_end - k,
    {
        let b = mrz_bytes[k];
        proof {
            let next = field.subrange(0, k + 1 - dob_start);
            assert(next.drop_last() =~= field.subrange(0, k - dob_start));
            assert(next.last() == b);
        }
        if b != 60u8 && b != 0u8 {
            r.push(b);
        }
        k = k + 1;
    }
    proof {
        assert(field.subrange(0, dob_end - dob_start) =~= field);
    }
    r
}

} // verus!
