//! Reconstruction of the packed machine-readable-zone bytes from the
//! big-endian field elements that a proof exposes as public signals.

use vstd::prelude::*;

verus! {

/// The payload bytes of one field element, least significant first:
/// the bytes at positions 31, 30, ..., 32 - count.
pub open spec fn chunk_of(element: [u8; 32], count: nat) -> Seq<u8> {
    Seq::new(count, |j: int| element@[31 - j])
}

/// The byte buffer that the first `n` elements give under the packing table
/// `counts`: the chunks of the elements, one after the other.
pub open spec fn unpacked(elements: Seq<[u8; 32]>, counts: Seq<usize>, n: nat) -> Seq<u8>
    decreases n,
{
    if n == 0 {
        Seq::empty()
    } else {
        unpacked(elements, counts, (n - 1) as nat) + chunk_of(
            elements[n - 1],
            counts[n - 1] as nat,
        )
    }
}

/// The sum of the first `n` byte counts of a packing table.
pub open spec fn packed_len(counts: Seq<usize>, n: nat) -> nat
    decreases n,
{
    if n == 0 {
        0
    } else {
        packed_len(counts, (n - 1) as nat) + counts[n - 1] as nat
    }
}

/// A packing table fit for `n` elements: it has an entry for each, and no
/// entry asks for more bytes than an element holds.
pub open spec fn table_fits(counts: Seq<usize>, n: nat) -> bool {
    n <= counts.len() && forall|i: int| 0 <= i < n ==> #[trigger] counts[i] <= 32
}

/// The low-order `count` bytes of an element, in their stored (big-endian) order.
pub open spec fn low_bytes(element: [u8; 32], count: nat) -> Seq<u8> {
    element@.subrange(32 - count, 32)
}

/// Re-packing of a byte buffer under a packing table: the `n` segments that
/// the table cuts from the buffer, each put back into big-endian order.
pub open spec fn repacked(buffer: Seq<u8>, counts: Seq<usize>, n: nat) -> Seq<Seq<u8>>
    decreases n,
{
    if n == 0 {
        Seq::empty()
    } else {
        let c = counts[n - 1] as int;
        let rest = buffer.subrange(0, buffer.len() - c);
        repacked(rest, counts, (n - 1) as nat).push(
            buffer.subrange(buffer.len() - c, buffer.len() as int).reverse(),
        )
    }
}

proof fn lemma_unpacked_len(elements: Seq<[u8; 32]>, counts: Seq<usize>, n: nat)
    ensures
        unpacked(elements, counts, n).len() == packed_len(counts, n),
    decreases n,
{
    if n > 0 {
        lemma_unpacked_len(elements, counts, (n - 1) as nat);
    }
}

/// Unpacking followed by re-packing with the same byte counts gives back,
/// for each element, its low-order bytes.
pub proof fn lemma_unpack_round_trip(elements: Seq<[u8; 32]>, counts: Seq<usize>, n: nat)
    requires
        n <= elements.len(),
        table_fits(counts, n),
    ensures
        repacked(unpacked(elements, counts, n), counts, n) == Seq::new(
            n,
            |i: int| low_bytes(elements[i], counts[i] as nat),
        ),
    decreases n,
{
    if n > 0 {
        let m = (n - 1) as nat;
        let buf = unpacked(elements, counts, n);
        let prev = unpacked(elements, counts, m);
        let c = counts[m as int] as nat;
        let chunk = chunk_of(elements[m as int], c);
        lemma_unpack_round_trip(elements, counts, m);
        assert(buf.subrange(0, buf.len() - c) =~= prev);
        assert(buf.subrange(buf.len() - c, buf.len() as int) =~= chunk);
        assert(chunk.reverse() =~= low_bytes(elements[m as int], c));
        assert(repacked(buf, counts, n) =~= Seq::new(
            n,
            |i: int| low_bytes(elements[i], counts[i] as nat),
        ));
    }
}

/// Unpacking is a function of its inputs: two unpackings of the same
/// elements under the same table give the same buffer.
pub proof fn lemma_unpack_deterministic(
    elements: Seq<[u8; 32]>,
    counts: Seq<usize>,
    n: nat,
    other_elements: Seq<[u8; 32]>,
    other_counts: Seq<usize>,
    other_n: nat,
)
    requires
        n <= elements.len(),
        table_fits(counts, n),
        elements == other_elements,
        counts == other_counts,
        n == other_n,
    ensures
        unpacked(elements, counts, n) == unpacked(other_elements, other_counts, other_n),
{
}

/// Builds the byte buffer carried by the first `packed_count` elements: for
/// each, its `bytes_per_elem[i]` low-order bytes, least significant first.
pub fn unpack_revealed_data(
    public_inputs: &[[u8; 32]],
    packed_count: usize,
    bytes_per_elem: &[usize],
) -> (result: Vec<u8>)
    requires
        packed_count <= public_inputs@.len(),
        table_fits(bytes_per_elem@, packed_count as nat),
    ensures
        result@ == unpacked(public_inputs@, bytes_per_elem@, packed_count as nat),
        result@.len() == packed_len(bytes_per_elem@, packed_count as nat),
{
    let mut result: Vec<u8> = Vec::new();
    let mut i: usize = 0;
    while i < packed_count
        invariant
            i <= packed_count,
            packed_count <= public_inputs@.len(),
            table_fits(bytes_per_elem@, packed_count as nat),
            result@ == unpacked(public_inputs@, bytes_per_elem@, i as nat),
        decreases packed_count - i,
    {
        let count = bytes_per_elem[i];
        let element = public_inputs[i];
        let ghost before = result@;
        let mut j: usize = 0;
        while j < count
            invariant
                j <= count,
                count <= 32,
                element == public_inputs@[i as int],
                result@ == before + chunk_of(element, j as nat),
            decreases count - j,
        {
            result.push(element[31 - j]);
            j = j + 1;
            assert(result@ =~= before + chunk_of(element, j as nat));
        }
        i = i + 1;
    }
    proof {
        lemma_unpacked_len(public_inputs@, bytes_per_elem@, packed_count as nat);
    }
    result
}

} // verus!
