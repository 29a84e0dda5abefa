use vstd::prelude::*;

verus! {

/// `data` begins with `prefix`.
pub open spec fn spec_has_prefix(data: Seq<u8>, prefix: Seq<u8>) -> bool {
    data.len() >= prefix.len() && data.subrange(0, prefix.len() as int) == prefix
}

/// `data` holds `prefix` at offset `at`.
pub open spec fn spec_has_at(data: Seq<u8>, at: int, prefix: Seq<u8>) -> bool {
    0 <= at && at + prefix.len() <= data.len() && data.subrange(at, at + prefix.len()) == prefix
}

/// Whether `data` holds `prefix` at offset `at`.
pub fn has_at(data: &[u8], at: usize, prefix: &[u8]) -> (r: bool)
    ensures
        r == spec_has_at(data@, at as int, prefix@),
{
    if at > data.len() || prefix.len() > data.len() - at {
        return false;
    }
    let dl = data.len();
    let mut i: usize = 0;
    while i < prefix.len()
        invariant
            dl == data@.len(),
            at + prefix@.len() <= data@.len(),
            i <= prefix@.len(),
            forall|j: int| 0 <= j < i ==> data@[at + j] == prefix@[j],
        decreases prefix@.len() - i,
    {
        assert(at + i < data@.len());
        if data[at + i] != prefix[i] {
            assert(data@.subrange(at as int, at + prefix@.len())[i as int] != prefix@[i as int]);
            return false;
        }
        i = i + 1;
    }
    assert(data@.subrange(at as int, at + prefix@.len()) =~= prefix@);
    true
}

/// Whether `data` begins with `prefix`.
pub fn has_prefix(data: &[u8], prefix: &[u8]) -> (r: bool)
    ensures
        r == spec_has_prefix(data@, prefix@),
{
    has_at(data, 0, prefix)
}

/// Little-endian 16-bit value at `i`.
pub open spec fn le16(data: Seq<u8>, i: int) -> int {
    data[i] + 256 * data[i + 1]
}

/// Little-endian 24-bit value at `i`.
pub open spec fn le24(data: Seq<u8>, i: int) -> int {
    data[i] + 256 * data[i + 1] + 65536 * data[i + 2]
}

/// Reads the little-endian 16-bit value at `i`.
pub fn read_le16(data: &[u8], i: usize) -> (r: u16)
    requires
        i + 2 <= data@.len(),
    ensures
        r == le16(data@, i as int),
{
    let lo = data[i];
    let hi = data[i + 1];
    let r = (lo as u16) | ((hi as u16) << 8u16);
    assert((lo as u16) | ((hi as u16) << 8u16) == lo + 256 * hi) by (bit_vector);
    r
}

/// Reads the little-endian 24-bit value at `i`.
pub fn read_le24(data: &[u8], i: usize) -> (r: usize)
    requires
        i + 3 <= data@.len(),
    ensures
        r == le24(data@, i as int),
{
    let a = data[i] as usize;
    let b = data[i + 1] as usize;
    let c = data[i + 2] as usize;
    a + 256 * b + 65536 * c
}

} // verus!
