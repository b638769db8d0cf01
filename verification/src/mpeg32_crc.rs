//! The checksum engine: the 32-bit CRC used by PSI sections (ISO/IEC 13818-1
//! Annex B). Polynomial 0x04C11DB7, register initialized to 0xFFFFFFFF,
//! bytes processed most-significant-bit first, no bit reflection and no
//! final XOR.

use vstd::prelude::*;

verus! {

/// One shift of the CRC register: shift left by one and, if the bit shifted
/// out was set, fold in the polynomial.
pub open spec fn crc_shift(c: u32) -> u32 {
    if c & 0x8000_0000u32 != 0 {
        (c << 1u32) ^ 0x04C1_1DB7u32
    } else {
        c << 1u32
    }
}

/// `k` successive shifts of the CRC register.
pub open spec fn crc_shifts(c: u32, k: nat) -> u32
    decreases k,
{
    if k == 0 {
        c
    } else {
        crc_shift(crc_shifts(c, (k - 1) as nat))
    }
}

/// Folding one byte into the CRC register: xor it into the top byte of the
/// register, then shift eight times.
pub open spec fn crc_byte(c: u32, b: u8) -> u32 {
    crc_shifts(c ^ ((b as u32) << 24u32), 8)
}

/// The CRC of a byte sequence: start from 0xFFFFFFFF and fold in each byte
/// in order.
pub open spec fn crc32_of(s: Seq<u8>) -> u32
    decreases s.len(),
{
    if s.len() == 0 {
        0xFFFF_FFFFu32
    } else {
        crc_byte(crc32_of(s.drop_last()), s.last())
    }
}

/// The CRC of the empty byte range is the initial register value, since the
/// register starts there and is never touched.
pub proof fn lemma_crc32_empty()
    ensures
        crc32_of(Seq::<u8>::empty()) == 0xFFFF_FFFFu32,
{
}

/// One CRC register shift is injective: the shifted-out bit survives as the
/// low bit of the folded-in polynomial, which is odd.
proof fn lemma_crc_shift_injective(c1: u32, c2: u32)
    requires
        c1 != c2,
    ensures
        crc_shift(c1) != crc_shift(c2),
{
    assert((if c1 & 0x8000_0000u32 != 0 {
        (c1 << 1u32) ^ 0x04C1_1DB7u32
    } else {
        c1 << 1u32
    }) != (if c2 & 0x8000_0000u32 != 0 {
        (c2 << 1u32) ^ 0x04C1_1DB7u32
    } else {
        c2 << 1u32
    })) by (bit_vector)
        requires
            c1 != c2,
    ;
}

/// Any number of CRC register shifts is injective.
proof fn lemma_crc_shifts_injective(c1: u32, c2: u32, k: nat)
    requires
        c1 != c2,
    ensures
        crc_shifts(c1, k) != crc_shifts(c2, k),
    decreases k,
{
    if k > 0 {
        lemma_crc_shifts_injective(c1, c2, (k - 1) as nat);
        lemma_crc_shift_injective(crc_shifts(c1, (k - 1) as nat), crc_shifts(c2, (k - 1) as nat));
    }
}

/// Folding the same byte into different registers keeps them different.
proof fn lemma_crc_byte_injective_in_register(c1: u32, c2: u32, b: u8)
    requires
        c1 != c2,
    ensures
        crc_byte(c1, b) != crc_byte(c2, b),
{
    assert(c1 ^ ((b as u32) << 24u32) != c2 ^ ((b as u32) << 24u32)) by (bit_vector)
        requires
            c1 != c2,
    ;
    lemma_crc_shifts_injective(c1 ^ ((b as u32) << 24u32), c2 ^ ((b as u32) << 24u32), 8);
}

/// Folding different bytes into the same register makes them different.
proof fn lemma_crc_byte_injective_in_byte(c: u32, b1: u8, b2: u8)
    requires
        b1 != b2,
    ensures
        crc_byte(c, b1) != crc_byte(c, b2),
{
    assert(c ^ ((b1 as u32) << 24u32) != c ^ ((b2 as u32) << 24u32)) by (bit_vector)
        requires
            b1 != b2,
    ;
    lemma_crc_shifts_injective(c ^ ((b1 as u32) << 24u32), c ^ ((b2 as u32) << 24u32), 8);
}

/// The CRC detects every single corrupted byte, and so every single flipped
/// bit: two byte sequences of the same length that differ in exactly one
/// position have different CRCs.
pub proof fn lemma_crc_detects_single_byte_change(s1: Seq<u8>, s2: Seq<u8>, i: int)
    requires
        s1.len() == s2.len(),
        0 <= i < s1.len(),
        s1[i] != s2[i],
        forall|j: int| 0 <= j < s1.len() && j != i ==> s1[j] == s2[j],
    ensures
        crc32_of(s1) != crc32_of(s2),
    decreases s1.len(),
{
    if i == s1.len() - 1 {
        assert(s1.drop_last() =~= s2.drop_last());
        lemma_crc_byte_injective_in_byte(crc32_of(s1.drop_last()), s1.last(), s2.last());
    } else {
        lemma_crc_detects_single_byte_change(s1.drop_last(), s2.drop_last(), i);
        assert(s1.last() == s2.last());
        lemma_crc_byte_injective_in_register(
            crc32_of(s1.drop_last()),
            crc32_of(s2.drop_last()),
            s1.last(),
        );
    }
}

/// Computes the 32-bit CRC of `buf` per ISO/IEC 13818-1 Annex B. Total over
/// any byte length, including zero; no failure mode.
pub fn crc32_mpeg(buf: &[u8]) -> (r: u32)
    ensures
        r == crc32_of(buf@),
{
    let mut crc: u32 = 0xFFFF_FFFF;
    let mut i: usize = 0;
    while i < buf.len()
        invariant
            i <= buf@.len(),
            crc == crc32_of(buf@.take(i as int)),
        decreases buf@.len() - i,
    {
        let ghost prev = crc32_of(buf@.take(i as int));
        crc = crc ^ ((buf[i] as u32) << 24u32);
        let ghost start = crc;
        let mut k: usize = 0;
        while k < 8
            invariant
                k <= 8,
                crc == crc_shifts(start, k as nat),
            decreases 8 - k,
        {
            crc = if crc & 0x8000_0000u32 != 0 {
                (crc << 1u32) ^ 0x04C1_1DB7u32
            } else {
                crc << 1u32
            };
            k = k + 1;
        }
        proof {
            assert(crc == crc_byte(prev, buf@[i as int]));
            assert(buf@.take(i + 1).drop_last() =~= buf@.take(i as int));
            assert(buf@.take(i + 1).last() == buf@[i as int]);
        }
        i = i + 1;
    }
    proof {
        assert(buf@.take(buf@.len() as int) =~= buf@);
    }
    crc
}

} // verus!
