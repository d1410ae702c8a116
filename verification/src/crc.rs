//! The checksum that the table records for each entry: CRC-32 with the
//! reflected polynomial `0xEDB88320`, all ones at the start and inverted at
//! the end.

use vstd::prelude::*;

verus! {

/// The reflected generator polynomial.
pub const POLYNOMIAL: u32 = 0xEDB8_8320;

/// One division step: the register moves one bit to the right, and the
/// polynomial is subtracted where a one fell out.
pub open spec fn crc_shift(c: u32) -> u32 {
    if c & 1 == 1 {
        (c >> 1) ^ POLYNOMIAL
    } else {
        c >> 1
    }
}

/// `n` division steps in a row.
pub open spec fn crc_shifts(c: u32, n: nat) -> u32
    decreases n,
{
    if n == 0 {
        c
    } else {
        crc_shifts(crc_shift(c), (n - 1) as nat)
    }
}

/// The register after one more byte of input.
pub open spec fn crc_feed(c: u32, byte: u8) -> u32 {
    crc_shifts(c ^ (byte as u32), 8)
}

/// The register after all of `bytes`, starting from all ones.
pub open spec fn crc_register(bytes: Seq<u8>) -> u32
    decreases bytes.len(),
{
    if bytes.len() == 0 {
        0xFFFF_FFFF
    } else {
        crc_feed(crc_register(bytes.drop_last()), bytes.last())
    }
}

/// The CRC-32 of `bytes`.
pub open spec fn crc32(bytes: Seq<u8>) -> u32 {
    crc_register(bytes) ^ 0xFFFF_FFFF
}

/// Computes the CRC-32 of `data`.
pub fn checksum(data: &[u8]) -> (c: u32)
    ensures
        c == crc32(data@),
{
    let mut register: u32 = 0xFFFF_FFFF;
    let mut i: usize = 0;
    while i < data.len()
        invariant
            i <= data@.len(),
            register == crc_register(data@.take(i as int)),
        decreases data@.len() - i,
    {
        let mut x: u32 = register ^ (data[i] as u32);
        let mut done: u8 = 0;
        while done < 8
            invariant
                done <= 8,
                i < data@.len(),
                crc_shifts(x, (8 - done) as nat) == crc_feed(register, data@[i as int]),
            decreases 8 - done,
        {
            x = if x & 1 == 1 {
                (x >> 1) ^ POLYNOMIAL
            } else {
                x >> 1
            };
            done = done + 1;
        }
        proof {
            let upto = data@.take(i + 1);
            assert(upto.drop_last() == data@.take(i as int));
            assert(upto.last() == data@[i as int]);
        }
        register = x;
        i = i + 1;
    }
    proof {
        assert(data@.take(i as int) == data@);
    }
    register ^ 0xFFFF_FFFF
}

} // verus!
