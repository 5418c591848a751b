//! Byte strings and fixed-width numbers.

use vstd::prelude::*;

verus! {

/// The number that a 64-bit unsigned number stands for when its bits are read as signed.
pub open spec fn as_signed(n: u64) -> int {
    if n <= i64::MAX {
        n as int
    } else {
        n - 0x1_0000_0000_0000_0000
    }
}

/// The number that a 64-bit signed number stands for when its bits are read as unsigned.
pub open spec fn as_unsigned(n: i64) -> int {
    if n >= 0 {
        n as int
    } else {
        n + 0x1_0000_0000_0000_0000
    }
}

/// Reads the bits of `n` as a signed number.
pub fn to_signed(n: u64) -> (signed: i64)
    ensures
        signed == as_signed(n),
{
    let signed: i64 = #[verifier::truncate] (n as i64);
    assert(n <= 0x7fff_ffff_ffff_ffff ==> (n as i64) == n) by (bit_vector);
    assert(n > 0x7fff_ffff_ffff_ffff ==> (n as i64) == n - 0x1_0000_0000_0000_0000) by (bit_vector);
    signed
}

/// Reads the bits of `n` as an unsigned number.
pub fn to_unsigned(n: i64) -> (unsigned: u64)
    ensures
        unsigned == as_unsigned(n),
{
    let unsigned: u64 = #[verifier::truncate] (n as u64);
    assert(n < 0 ==> (n as u64) == n + 0x1_0000_0000_0000_0000) by (bit_vector);
    unsigned
}

/// Whether two byte strings are the same.
pub fn same_bytes(a: &[u8], b: &[u8]) -> (same: bool)
    ensures
        same == (a@ == b@),
{
    if a.len() != b.len() {
        return false;
    }
    let mut i: usize = 0;
    while i < a.len()
        invariant
            a@.len() == b@.len(),
            0 <= i <= a@.len(),
            forall|j: int| 0 <= j < i ==> a@[j] == b@[j],
        decreases a@.len() - i,
    {
        if a[i] != b[i] {
            return false;
        }
        i = i + 1;
    }
    assert(a@ =~= b@);
    true
}

/// A copy of a byte string.
pub fn copy_bytes(bytes: &[u8]) -> (copy: Vec<u8>)
    ensures
        copy@ == bytes@,
{
    let mut copy: Vec<u8> = Vec::new();
    let mut i: usize = 0;
    while i < bytes.len()
        invariant
            0 <= i <= bytes@.len(),
            copy@ == bytes@.take(i as int),
        decreases bytes@.len() - i,
    {
        copy.push(bytes[i]);
        i = i + 1;
    }
    assert(bytes@.take(bytes@.len() as int) =~= bytes@);
    copy
}

} // verus!
