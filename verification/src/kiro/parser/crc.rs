//! The checksum of frames: CRC-32 with the reversed polynomial 0xEDB88320.

use vstd::prelude::*;

verus! {

/// The register after one bit.
pub open spec fn crc_bit(c: u32) -> u32 {
    if c & 1 == 1 {
        (c >> 1) ^ 0xedb8_8320
    } else {
        c >> 1
    }
}

/// The register after `n` bits.
pub open spec fn crc_bits(c: u32, n: nat) -> u32
    decreases n,
{
    if n == 0 {
        c
    } else {
        crc_bit(crc_bits(c, (n - 1) as nat))
    }
}

/// The register after a byte.
pub open spec fn crc_byte(c: u32, b: u8) -> u32 {
    crc_bits(c ^ (b as u32), 8)
}

/// The register after some bytes.
pub open spec fn crc_register(bytes: Seq<u8>) -> u32
    decreases bytes.len(),
{
    if bytes.len() == 0 {
        0xffff_ffff
    } else {
        crc_byte(crc_register(bytes.drop_last()), bytes.last())
    }
}

/// The checksum of some bytes.
pub open spec fn checksum(bytes: Seq<u8>) -> u32 {
    crc_register(bytes) ^ 0xffff_ffff
}

/// The checksum of some bytes.
pub fn crc32(bytes: &[u8]) -> (r: u32)
    ensures
        r == checksum(bytes@),
{
    let mut c: u32 = 0xffff_ffff;
    let mut i: usize = 0;
    assert(bytes@.take(0) =~= Seq::<u8>::empty());
    while i < bytes.len()
        invariant
            i <= bytes@.len(),
            c == crc_register(bytes@.take(i as int)),
        decreases bytes@.len() - i,
    {
        assert(bytes@.take(i + 1).drop_last() =~= bytes@.take(i as int));
        let mixed: u32 = c ^ (bytes[i] as u32);
        c = mixed;
        let mut k: u32 = 0;
        while k < 8
            invariant
                k <= 8,
                c == crc_bits(mixed, k as nat),
            decreases 8 - k,
        {
            c = if c & 1 == 1 {
                (c >> 1) ^ 0xedb8_8320
            } else {
                c >> 1
            };
            k += 1;
        }
        i += 1;
    }
    assert(bytes@.take(bytes@.len() as int) =~= bytes@);
    c ^ 0xffff_ffff
}

} // verus!
