//! CRC-32 of decoded entry bytes.
//!
//! The archive format records a CRC-32 (reflected form, polynomial
//! `0xedb88320`, initial state and final mask `0xffffffff`) over the
//! uncompressed bytes of every entry.  The extractor recomputes it after
//! decoding and refuses the entry on disagreement.

use vstd::prelude::*;

verus! {

/// Reflected CRC-32 polynomial.
pub const CRC32_POLYNOMIAL: u32 = 0xedb88320;

/// One bit step of the reflected CRC-32 shift register.
pub open spec fn crc32_shift_bit(r: u32) -> u32 {
    if r & 1 == 1 {
        (r >> 1) ^ CRC32_POLYNOMIAL
    } else {
        r >> 1
    }
}

/// `n` bit steps of the shift register.
pub open spec fn crc32_shift_bits(r: u32, n: nat) -> u32
    decreases n,
{
    if n == 0 {
        r
    } else {
        crc32_shift_bit(crc32_shift_bits(r, (n - 1) as nat))
    }
}

/// Folding one byte into the shift register: xor it in, then step eight
/// bits.
pub open spec fn crc32_update(r: u32, b: u8) -> u32 {
    crc32_shift_bits(r ^ (b as u32), 8)
}

/// The register state after folding in every byte of `s`, starting from the
/// all-ones initial state.
pub open spec fn crc32_accum(s: Seq<u8>) -> u32
    decreases s.len(),
{
    if s.len() == 0 {
        0xffffffffu32
    } else {
        crc32_update(crc32_accum(s.drop_last()), s.last())
    }
}

/// The CRC-32 of a byte sequence: the final register state, inverted.
pub open spec fn spec_crc32(s: Seq<u8>) -> u32 {
    crc32_accum(s) ^ 0xffffffffu32
}

/// Computes the CRC-32 of `data`.
pub fn crc32(data: &Vec<u8>) -> (r: u32)
    ensures
        r == spec_crc32(data@),
{
    let mut state: u32 = 0xffffffff;
    let mut i: usize = 0;
    while i < data.len()
        invariant
            i <= data@.len(),
            state == crc32_accum(data@.take(i as int)),
        decreases data@.len() - i,
    {
        let b = data[i];
        state = state ^ (b as u32);
        let ghost entered: u32 = state;
        let mut j: usize = 0;
        while j < 8
            invariant
                j <= 8,
                state == crc32_shift_bits(entered, j as nat),
            decreases 8 - j,
        {
            if state & 1 == 1 {
                state = (state >> 1) ^ CRC32_POLYNOMIAL;
            } else {
                state = state >> 1;
            }
            j = j + 1;
        }
        i = i + 1;
        proof {
            let t = data@.take(i as int);
            assert(t.drop_last() =~= data@.take(i - 1));
            assert(t.last() == data@[i - 1]);
        }
    }
    proof {
        assert(data@.take(data@.len() as int) =~= data@);
    }
    state ^ 0xffffffff
}

} // verus!
