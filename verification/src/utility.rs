//! Bit-level helpers shared by the instruction decoder and the framebuffer.

use vstd::prelude::*;

verus! {

/// Whether bit `k` of `byte` is set, bit 0 being the least significant and
/// bit 7 the most significant.
pub open spec fn bit_at(byte: u8, k: int) -> bool {
    if k <= 0 {
        byte % 2 == 1
    } else if k == 1 {
        byte / 2 % 2 == 1
    } else if k == 2 {
        byte / 4 % 2 == 1
    } else if k == 3 {
        byte / 8 % 2 == 1
    } else if k == 4 {
        byte / 16 % 2 == 1
    } else if k == 5 {
        byte / 32 % 2 == 1
    } else if k == 6 {
        byte / 64 % 2 == 1
    } else {
        byte / 128 % 2 == 1
    }
}

/// The 16-bit word obtained by packing 4-bit groups, most significant group
/// first. Each further group shifts the word left by four bits, so only the
/// last four groups remain, and only the low 16 bits of each entry count.
pub open spec fn pack_nibbles(nibbles: Seq<usize>) -> u16
    decreases nibbles.len(),
{
    if nibbles.len() == 0 {
        0
    } else {
        (pack_nibbles(nibbles.drop_last()) << 4u16) | (nibbles.last() as u16)
    }
}

/// The number written in base 16 by `nibbles`, most significant digit first.
pub open spec fn nibbles_value(nibbles: Seq<usize>) -> nat
    decreases nibbles.len(),
{
    if nibbles.len() == 0 {
        0
    } else {
        nibbles_value(nibbles.drop_last()) * 16 + nibbles.last() as nat
    }
}

/// Every entry is a 4-bit value.
pub open spec fn all_nibbles(nibbles: Seq<usize>) -> bool {
    forall|i: int| 0 <= i < nibbles.len() ==> nibbles[i] < 16
}

spec fn pow16(n: nat) -> nat
    decreases n,
{
    if n == 0 {
        1
    } else {
        16 * pow16((n - 1) as nat)
    }
}

proof fn lemma_nibbles_value_bound(nibbles: Seq<usize>)
    requires
        all_nibbles(nibbles),
    ensures
        nibbles_value(nibbles) < pow16(nibbles.len()),
    decreases nibbles.len(),
{
    if nibbles.len() > 0 {
        lemma_nibbles_value_bound(nibbles.drop_last());
    }
}

/// Up to four proper nibbles pack into the number they write in base 16.
pub proof fn lemma_pack_nibbles_value(nibbles: Seq<usize>)
    requires
        all_nibbles(nibbles),
        nibbles.len() <= 4,
    ensures
        pack_nibbles(nibbles) == nibbles_value(nibbles),
    decreases nibbles.len(),
{
    if nibbles.len() > 0 {
        let front = nibbles.drop_last();
        lemma_pack_nibbles_value(front);
        lemma_nibbles_value_bound(front);
        reveal_with_fuel(pow16, 5);
        let high: u16 = pack_nibbles(front);
        let low: u16 = nibbles.last() as u16;
        assert(high < 0x1000);
        assert(low == nibbles.last());
        assert((high << 4u16) | low == high * 16 + low) by (bit_vector)
            requires
                high < 0x1000,
                low < 16,
        ;
    }
}

/// The eight bits of `byte` as booleans, most significant bit first.
pub fn byte_to_bools(byte: u8) -> (bits: [bool; 8])
    ensures
        forall|i: int| 0 <= i < 8 ==> bits[i] == bit_at(byte, 7 - i),

{
    let mut bits = [false;8];
    let mut i: u8 = 0;
    while i < 8
        invariant
            i <= 8,
            forall|j: int| 8 - i <= j < 8 ==> bits[j] == bit_at(byte, 7 - j),
        decreases 8 - i,
    {
        assert(((byte >> i) & 1u8 != 0u8) == if i == 0 {
            byte % 2 == 1
        } else if i == 1 {
            byte / 2 % 2 == 1
        } else if i == 2 {
            byte / 4 % 2 == 1
        } else if i == 3 {
            byte / 8 % 2 == 1
        } else if i == 4 {
            byte / 16 % 2 == 1
        } else if i == 5 {
            byte / 32 % 2 == 1
        } else if i == 6 {
            byte / 64 % 2 == 1
        } else {
            byte / 128 % 2 == 1
        }) by (bit_vector)
            requires
                i < 8,
        ;
        bits[(7 - i) as usize] = ((byte >> i) & 1u8) != 0;
        i += 1;
    }
    bits
}

/// Packs 4-bit groups into one 16-bit word, most significant group first.
pub fn reconstruct_byte(bytes: &[usize]) -> (word: u16)
    ensures
        word == pack_nibbles(bytes@),
        all_nibbles(bytes@) && bytes@.len() <= 4 ==> word == nibbles_value(bytes@),

{
    let length = bytes.len();
    let mut result: u16 = 0;
    let mut i: usize = 0;
    while i < length
        invariant
            length == bytes@.len(),
            i <= length,
            result == pack_nibbles(bytes@.subrange(0, i as int)),
        decreases length - i,
    {
        proof {
            let next = bytes@.subrange(0, i + 1);
            assert(next.drop_last() =~= bytes@.subrange(0, i as int));
            assert(next.last() == bytes@[i as int]);
        }
        result = (result << 4) | (#[verifier::truncate] (bytes[i] as u16));
        i += 1;
    }
    proof {
        assert(bytes@.subrange(0, length as int) =~= bytes@);
        if all_nibbles(bytes@) && bytes@.len() <= 4 {
            lemma_pack_nibbles_value(bytes@);
        }
    }
    result
}

} // verus!
