//! Admissibility of the inputs of the Groth16 proof check: a verifying key
//! that a gnark-format reader can take apart, and public signals that fold
//! into its input table without a zero scalar.

use vstd::prelude::*;

verus! {

/// The number of points of the key's input table: the big-endian `u32` at
/// bytes 288 to 291.
pub open spec fn key_count(vk: Seq<u8>) -> int {
    vk[288] as int * 16777216 + vk[289] as int * 65536 + vk[290] as int * 256 + vk[291] as int
}

/// A compressed point whose leading byte carries a flag: its two top bits
/// are not both clear.
pub open spec fn flagged(b: u8) -> bool {
    b >= 64
}

/// The leading byte of the `i`-th point of the key's input table.
pub open spec fn table_point_lead(vk: Seq<u8>, i: int) -> u8 {
    vk[292 + 32 * i]
}

/// A verifying key that the verifier reads without failing: long enough for
/// its fixed part and its input table, each compressed point flagged.
pub open spec fn vk_readable(vk: Seq<u8>) -> bool {
    &&& vk.len() >= 292
    &&& vk.len() >= 292 + 32 * key_count(vk)
    &&& flagged(vk[0]) && flagged(vk[64]) && flagged(vk[128]) && flagged(vk[224])
    &&& forall|i: int| 0 <= i < key_count(vk) ==> flagged(#[trigger] table_point_lead(vk, i))
}

/// The big-endian encodings of the multiples of the BN254 scalar-field
/// modulus r = 0x30644e72e131a029b85045b68181585d2833e84879b9709143e1f593f0000001
/// that fit in 32 bytes: 0, r, 2r, 3r, 4r and 5r. A signal reduces to the
/// zero scalar exactly when it is one of them.
pub const ZERO_SCALAR_ENCODINGS: [[u8; 32]; 6] = [
    [
        0x00, 0x00, 0x00, 0x00, 0x00, 0x00, 0x00, 0x00,
        0x00, 0x00, 0x00, 0x00, 0x00, 0x00, 0x00, 0x00,
        0x00, 0x00, 0x00, 0x00, 0x00, 0x00, 0x00, 0x00,
        0x00, 0x00, 0x00, 0x00, 0x00, 0x00, 0x00, 0x00,
    ],
    [
        0x30, 0x64, 0x4e, 0x72, 0xe1, 0x31, 0xa0, 0x29,
        0xb8, 0x50, 0x45, 0xb6, 0x81, 0x81, 0x58, 0x5d,
        0x28, 0x33, 0xe8, 0x48, 0x79, 0xb9, 0x70, 0x91,
        0x43, 0xe1, 0xf5, 0x93, 0xf0, 0x00, 0x00, 0x01,
    ],
    [
        0x60, 0xc8, 0x9c, 0xe5, 0xc2, 0x63, 0x40, 0x53,
        0x70, 0xa0, 0x8b, 0x6d, 0x03, 0x02, 0xb0, 0xba,
        0x50, 0x67, 0xd0, 0x90, 0xf3, 0x72, 0xe1, 0x22,
        0x87, 0xc3, 0xeb, 0x27, 0xe0, 0x00, 0x00, 0x02,
    ],
    [
        0x91, 0x2c, 0xeb, 0x58, 0xa3, 0x94, 0xe0, 0x7d,
        0x28, 0xf0, 0xd1, 0x23, 0x84, 0x84, 0x09, 0x17,
        0x78, 0x9b, 0xb8, 0xd9, 0x6d, 0x2c, 0x51, 0xb3,
        0xcb, 0xa5, 0xe0, 0xbb, 0xd0, 0x00, 0x00, 0x03,
    ],
    [
        0xc1, 0x91, 0x39, 0xcb, 0x84, 0xc6, 0x80, 0xa6,
        0xe1, 0x41, 0x16, 0xda, 0x06, 0x05, 0x61, 0x74,
        0xa0, 0xcf, 0xa1, 0x21, 0xe6, 0xe5, 0xc2, 0x45,
        0x0f, 0x87, 0xd6, 0x4f, 0xc0, 0x00, 0x00, 0x04,
    ],
    [
        0xf1, 0xf5, 0x88, 0x3e, 0x65, 0xf8, 0x20, 0xd0,
        0x99, 0x91, 0x5c, 0x90, 0x87, 0x86, 0xb9, 0xd1,
        0xc9, 0x03, 0x89, 0x6a, 0x60, 0x9f, 0x32, 0xd6,
        0x53, 0x69, 0xcb, 0xe3, 0xb0, 0x00, 0x00, 0x05,
    ],
];

/// A signal whose value is a multiple of the scalar-field modulus, so that
/// it reduces to the zero scalar.
pub open spec fn zero_scalar(e: [u8; 32]) -> bool {
    exists|k: int| 0 <= k < 6 && e@ == #[trigger] ZERO_SCALAR_ENCODINGS@[k]@
}

/// Signals that the verifier folds into the key's input table without
/// failing: where the table has one point more than there are signals (the
/// only case in which the fold runs), no signal is the zero scalar.
pub open spec fn signals_foldable(public_inputs: Seq<[u8; 32]>, vk: Seq<u8>) -> bool {
    key_count(vk) == public_inputs.len() + 1 ==> forall|i: int|
        0 <= i < public_inputs.len() ==> !zero_scalar(#[trigger] public_inputs[i])
}

/// Whether the verifying key `vk` is readable.
pub fn verifying_key_readable(vk: &[u8]) -> (r: bool)
    ensures
        r == vk_readable(vk@),
{
    let n = vk.len();
    if n < 292 {
        return false;
    }
    let count: u64 = vk[288] as u64 * 16777216 + vk[289] as u64 * 65536 + vk[290] as u64 * 256
        + vk[291] as u64;
    assert(count == key_count(vk@));
    if (n as u64) < 292 + 32 * count {
        return false;
    }
    if vk[0] < 64 || vk[64] < 64 || vk[128] < 64 || vk[224] < 64 {
        return false;
    }
    let mut i: u64 = 0;
    while i < count
        invariant
            n == vk@.len(),
            n >= 292 + 32 * count,
            count == key_count(vk@),
            i <= count,
            forall|j: int| 0 <= j < i ==> flagged(#[trigger] table_point_lead(vk@, j)),
        decreases count - i,
    {
        let at = (292 + 32 * i) as usize;
        if vk[at] < 64 {
            assert(!flagged(table_point_lead(vk@, i as int)));
            return false;
        }
        i = i + 1;
    }
    true
}

/// Whether `e` is the encoding of a multiple of the scalar-field modulus.
pub fn is_zero_scalar(e: &[u8; 32]) -> (r: bool)
    ensures
        r == zero_scalar(*e),
{
    let mut k: usize = 0;
    while k < 6
        invariant
            k <= 6,
            forall|j: int| 0 <= j < k ==> e@ != #[trigger] ZERO_SCALAR_ENCODINGS@[j]@,
        decreases 6 - k,
    {
        let m = ZERO_SCALAR_ENCODINGS[k];
        let mut i: usize = 0;
        let mut same = true;
        while i < 32 && same
            invariant
                i <= 32,
                m == ZERO_SCALAR_ENCODINGS@[k as int],
                same ==> forall|q: int| 0 <= q < i ==> e@[q] == m@[q],
                !same ==> e@ != m@,
            decreases 32 - i + (if same { 1int } else { 0int }),
        {
            if e[i] != m[i] {
                same = false;
            } else {
                i = i + 1;
            }
        }
        if same {
            assert(e@ =~= m@);
            return true;
        }
        k = k + 1;
    }
    false
}

/// Whether the verifier can fold the signals into the key's input table.
pub fn signals_foldable_under(public_inputs: &[[u8; 32]], vk: &[u8]) -> (r: bool)
    requires
        vk@.len() >= 292,
    ensures
        r == signals_foldable(public_inputs@, vk@),
{
    let count: u64 = vk[288] as u64 * 16777216 + vk[289] as u64 * 65536 + vk[290] as u64 * 256
        + vk[291] as u64;
    assert(count == key_count(vk@));
    let n = public_inputs.len();
    if count == 0 || count - 1 != n as u64 {
        return true;
    }
    let mut i: usize = 0;
    while i < n
        invariant
            n == public_inputs@.len(),
            key_count(vk@) == n + 1,
            i <= n,
            forall|j: int| 0 <= j < i ==> !zero_scalar(#[trigger] public_inputs@[j]),
        decreases n - i,
    {
        if is_zero_scalar(&public_inputs[i]) {
            assert(zero_scalar(public_inputs@[i as int]));
            return false;
        }
        i = i + 1;
    }
    true
}

/// The inputs of the proof check admissible: the key is readable and
/// the signals fold into its input table.
pub open spec fn proof_inputs_admissible(public_inputs: Seq<[u8; 32]>, vk: Seq<u8>) -> bool {
    vk_readable(vk) && signals_foldable(public_inputs, vk)
}

/// Whether the key is readable and the signals fold into its input table;
/// a proof check on other inputs is to count as failed.
pub fn proof_inputs_ok(public_inputs: &[[u8; 32]], vk: &[u8]) -> (r: bool)
    ensures
        r == proof_inputs_admissible(public_inputs@, vk@),
{
    verifying_key_readable(vk) && signals_foldable_under(public_inputs, vk)
}

} // verus!
