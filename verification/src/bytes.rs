//! Big-endian numbers in byte sequences.

use vstd::prelude::*;

verus! {

/// The 16-bit number whose big-endian octets are `hi`, `lo`.
pub open spec fn be16(hi: u8, lo: u8) -> u16 {
    (hi * 256 + lo) as u16
}

/// The big-endian 16-bit number at `s[at]`, `s[at + 1]`.
pub open spec fn be16_at(s: Seq<u8>, at: int) -> u16 {
    be16(s[at], s[at + 1])
}

/// The two big-endian octets of `value`.
pub open spec fn be16_octets(value: u16) -> Seq<u8> {
    seq![(value / 256) as u8, (value % 256) as u8]
}

/// Reads the big-endian 16-bit number at `bytes[at]`, `bytes[at + 1]`.
pub fn read_be16(bytes: &[u8], at: usize) -> (r: u16)
    requires
        at + 2 <= bytes@.len(),
    ensures
        r == be16_at(bytes@, at as int),
{
    (bytes[at] as u16) * 256 + (bytes[at + 1] as u16)
}

/// Appends the two big-endian octets of `value` to `out`.
pub fn write_be16(value: u16, out: &mut Vec<u8>)
    ensures
        final(out)@ == old(out)@ + be16_octets(value),
{
    out.push((value / 256) as u8);
    out.push((value % 256) as u8);
    assert(out@ =~= old(out)@ + be16_octets(value));
}

} // verus!
