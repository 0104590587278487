//! The three fields packed into an identifier value.

use vstd::prelude::*;

verus! {

/// Mask of the 42 bits kept of the timestamp.
pub const TIMESTAMP_MASK: u64 = 0x3FF_FFFF_FFFF;

/// Number of sequence values within one millisecond.
pub const SEQUENCE_LIMIT: u16 = 4096;

/// The value with timestamp `t` in bits 63 to 22, sequence `s` in bits 21 to
/// 10 and randomness `r` in bits 9 to 0, each cut to its width.
pub open spec fn packed(t: u64, s: u64, r: u64) -> u64 {
    ((t & 0x3FF_FFFF_FFFF) << 22u64) | ((s & 0xFFF) << 10u64) | (r & 0x3FF)
}

/// Timestamp field of an identifier.
pub open spec fn timestamp_of(id: u64) -> u64 {
    id >> 22u64
}

/// Sequence field of an identifier.
pub open spec fn sequence_of(id: u64) -> u64 {
    (id >> 10u64) & 0xFFF
}

/// Random field of an identifier.
pub open spec fn random_of(id: u64) -> u64 {
    id & 0x3FF
}

/// Packs the three fields of an identifier.
pub fn pack_id(timestamp_ms: u64, sequence: u16, random: u16) -> (r: u64)
    ensures
        r == packed(timestamp_ms, sequence as u64, random as u64),
{
    ((timestamp_ms & TIMESTAMP_MASK) << 22) | ((sequence as u64 & 0xFFF) << 10) | (random as u64
        & 0x3FF)
}

/// Reads the three fields back out of an identifier.
pub fn unpack_id(id: u64) -> (r: (u64, u16, u16))
    ensures
        r.0 == timestamp_of(id),
        r.1 as u64 == sequence_of(id),
        r.2 as u64 == random_of(id),
{
    proof {
        assert((id >> 10u64) & 0xFFF < 4096) by (bit_vector);
        assert(id & 0x3FF < 1024) by (bit_vector);
    }
    (id >> 22, ((id >> 10) & 0xFFF) as u16, (id & 0x3FF) as u16)
}

/// Packing fields within their widths and reading them back gives the same
/// fields.
pub proof fn lemma_unpack_packed(t: u64, s: u64, r: u64)
    requires
        t < 0x400_0000_0000,
        s < 4096,
        r < 1024,
    ensures
        timestamp_of(packed(t, s, r)) == t,
        sequence_of(packed(t, s, r)) == s,
        random_of(packed(t, s, r)) == r,
{
    assert(t < 0x400_0000_0000 && s < 4096 && r < 1024 ==> (((t & 0x3FF_FFFF_FFFF) << 22u64) | ((s
        & 0xFFF) << 10u64) | (r & 0x3FF)) >> 22u64 == t) by (bit_vector);
    assert(t < 0x400_0000_0000 && s < 4096 && r < 1024 ==> ((((t & 0x3FF_FFFF_FFFF) << 22u64) | ((s
        & 0xFFF) << 10u64) | (r & 0x3FF)) >> 10u64) & 0xFFF == s) by (bit_vector);
    assert(t < 0x400_0000_0000 && s < 4096 && r < 1024 ==> (((t & 0x3FF_FFFF_FFFF) << 22u64) | ((s
        & 0xFFF) << 10u64) | (r & 0x3FF)) & 0x3FF == r) by (bit_vector);
}

/// Identifiers compare by timestamp field first, then by sequence field.
pub proof fn lemma_fields_order(a: u64, b: u64)
    requires
        timestamp_of(a) < timestamp_of(b) || (timestamp_of(a) == timestamp_of(b) && sequence_of(a)
            < sequence_of(b)),
    ensures
        a < b,
{
    assert((a >> 22u64) < (b >> 22u64) ==> a < b) by (bit_vector);
    assert((a >> 22u64) == (b >> 22u64) && ((a >> 10u64) & 0xFFF) < ((b >> 10u64) & 0xFFF) ==> a
        < b) by (bit_vector);
}

} // verus!
