//! The bit accessor engine: bit-exact reads and writes of a field that may
//! start and end in the middle of a byte and may span many bytes.
//!
//! `get_bits` returns exactly the value stored in a field's bit range, and
//! `set_bits` stores a value there while provably leaving every bit outside
//! the range untouched, even in bytes the field shares with its neighbours.

use vstd::prelude::*;

verus! {

use vstd::arithmetic::power2::{pow2, lemma_pow2_adds, lemma_pow2_pos, lemma2_to64};
use vstd::arithmetic::div_mod::{lemma_fundamental_div_mod, lemma_mod_breakdown};
use vstd::bits::{lemma_u8_shr_is_div, lemma_u64_shl_is_mul, lemma_u64_pow2_no_overflow};
use crate::bitspec::{bit_at, bits_value, value_bit, lemma_bits_value_bound, lemma_bits_value_agree};

/// Bit `off` of the byte `b`, read through shift and mask, agrees with the
/// arithmetic reading used by `bit_at`.
proof fn lemma_u8_bit(b: u8, off: u8)
    requires
        off < 8,
    ensures
        ((b >> off) & 1 == 1) <==> (b as nat / pow2(off as nat)) % 2 == 1,
{
    lemma_u8_shr_is_div(b, off);
    let x = b >> off;
    assert(x & 1 == x % 2) by (bit_vector);
}

/// Bit `j` of the value `v`, read through shift and mask, agrees with
/// `value_bit`.
proof fn lemma_u64_bit(v: u64, j: u64)
    requires
        j < 64,
    ensures
        ((v >> j) & 1 == 1) <==> value_bit(v, j as nat),
{
    vstd::bits::lemma_u64_shr_is_div(v, j);
    let x = v >> j;
    assert(x & 1 == x % 2) by (bit_vector);
}

/// Setting or clearing bit `off` of a byte changes that bit alone.
proof fn lemma_u8_write_bit(b: u8, off: u8, k: u8)
    requires
        off < 8,
        k < 8,
    ensures
        k != off ==> ((b | (1u8 << off)) >> k) & 1 == (b >> k) & 1,
        k != off ==> ((b & !(1u8 << off)) >> k) & 1 == (b >> k) & 1,
        k == off ==> ((b | (1u8 << off)) >> k) & 1 == 1,
        k == off ==> ((b & !(1u8 << off)) >> k) & 1 == 0,
{
    assert(k != off && k < 8 && off < 8 ==> ((b | (1u8 << off)) >> k) & 1 == (b >> k) & 1)
        by (bit_vector);
    assert(k != off && k < 8 && off < 8 ==> ((b & !(1u8 << off)) >> k) & 1 == (b >> k) & 1)
        by (bit_vector);
    assert(off < 8 ==> ((b | (1u8 << off)) >> off) & 1 == 1) by (bit_vector);
    assert(off < 8 ==> ((b & !(1u8 << off)) >> off) & 1 == 0) by (bit_vector);
}

/// Reads the `width`-bit value stored at bit offset `start` of `data`,
/// assembling it bit by bit; the result is exactly the field's stored value.
pub fn get_bits(data: &Vec<u8>, start: usize, width: usize) -> (val: u64)
    requires
        width <= 64,
        start + width <= data.len() * 8,
        data.len() * 8 <= usize::MAX,
    ensures
        val as nat == bits_value(data@, start as nat, width as nat),
        (val as nat) < pow2(width as nat),
{
    let mut val: u64 = 0;
    let mut i: usize = 0;
    proof {
        lemma2_to64();
    }
    while i < width
        invariant
            i <= width,
            width <= 64,
            start + width <= data.len() * 8,
            data.len() * 8 <= usize::MAX,
            val as nat == bits_value(data@, start as nat, i as nat),
            (val as nat) < pow2(i as nat),
        decreases width - i,
    {
        let pos = start + i;
        let idx = pos / 8;
        let off: u8 = (pos % 8) as u8;
        let byte = data[idx];
        proof {
            lemma_u8_bit(byte, off);
            lemma_u64_pow2_no_overflow(i as nat);
            lemma_u64_shl_is_mul(1u64, i as u64);
            lemma_pow2_adds(i as nat, 1);
            lemma2_to64();
        }
        if (byte >> off) & 1 == 1 {
            let mask: u64 = 1u64 << (i as u64);
            proof {
                let v = val;
                let j = i as u64;
                assert(j < 64 && v < (1u64 << j) ==> (v | (1u64 << j)) == v + (1u64 << j))
                    by (bit_vector);
            }
            val = val | mask;
        }
        i = i + 1;
    }
    proof {
        lemma_bits_value_bound(data@, start as nat, width as nat);
    }
    val
}

/// Stores the `width`-bit value `val` at bit offset `start` of `data`,
/// scattering it bit by bit. Every bit outside the field's range keeps the
/// value it had, so neighbouring fields are never disturbed.
pub fn set_bits(data: &mut Vec<u8>, start: usize, width: usize, val: u64)
    requires
        width <= 64,
        start + width <= old(data).len() * 8,
        old(data).len() * 8 <= usize::MAX,
        (val as nat) < pow2(width as nat),
    ensures
        final(data).len() == old(data).len(),
        bits_value(final(data)@, start as nat, width as nat) == val as nat,
        forall|j: nat|
            j < width ==> #[trigger] bit_at(final(data)@, (start + j) as nat) == value_bit(
                val,
                j,
            ),
        forall|j: nat|
            j < old(data).len() * 8 && !(start <= j < start + width) ==> #[trigger] bit_at(
                final(data)@,
                j,
            ) == bit_at(old(data)@, j),
{
    let mut i: usize = 0;
    proof {
        lemma2_to64();
    }
    while i < width
        invariant
            i <= width,
            width <= 64,
            start + width <= old(data).len() * 8,
            old(data).len() * 8 <= usize::MAX,
            data.len() == old(data).len(),
            (val as nat) < pow2(width as nat),
            bits_value(data@, start as nat, i as nat) == (val as nat) % pow2(i as nat),
            forall|j: nat|
                j < i ==> #[trigger] bit_at(data@, (start + j) as nat) == value_bit(val, j),
            forall|j: nat|
                j < old(data).len() * 8 && !(start <= j < start + i) ==> #[trigger] bit_at(
                    data@,
                    j,
                ) == bit_at(old(data)@, j),
        decreases width - i,
    {
        let ghost prev = data@;
        let pos = start + i;
        let idx = pos / 8;
        let off: u8 = (pos % 8) as u8;
        let byte = data[idx];
        let mask: u8 = 1u8 << off;
        let bit_is_set = (val >> (i as u64)) & 1 == 1;
        if bit_is_set {
            data.set(idx, byte | mask);
        } else {
            data.set(idx, byte & !mask);
        }
        proof {
            let new_byte = data@[idx as int];
            lemma_u64_bit(val, i as u64);
            // Every bit other than `pos` keeps its value.
            assert forall|j: nat| j < prev.len() * 8 && j != pos implies #[trigger] bit_at(
                data@,
                j,
            ) == bit_at(prev, j) by {
                lemma_fundamental_div_mod(j as int, 8);
                lemma_fundamental_div_mod(pos as int, 8);
                if j / 8 == idx as nat {
                    let k = (j % 8) as u8;
                    lemma_u8_write_bit(byte, off, k);
                    lemma_u8_bit(byte, k);
                    lemma_u8_bit(new_byte, k);
                } else {
                    assert(data@[(j / 8) as int] == prev[(j / 8) as int]);
                }
            }
            // Bit `pos` now holds bit `i` of `val`.
            assert(bit_at(data@, pos as nat) == value_bit(val, i as nat)) by {
                lemma_fundamental_div_mod(pos as int, 8);
                lemma_u8_write_bit(byte, off, off);
                lemma_u8_bit(new_byte, off);
            }
            // The value of the first `i` bits is unchanged by this write.
            assert(bits_value(data@, start as nat, i as nat) == bits_value(
                prev,
                start as nat,
                i as nat,
            )) by {
                assert forall|j: nat| j < i implies #[trigger] bit_at(
                    data@,
                    (start + j) as nat,
                ) == bit_at(prev, (start + j) as nat) by {}
                lemma_bits_value_agree(data@, prev, start as nat, i as nat);
            }
            // One more stored bit extends the stored value by one bit of `val`.
            assert((val as nat) % pow2((i + 1) as nat) == (val as nat) % pow2(i as nat) + if value_bit(
                val,
                i as nat,
            ) {
                pow2(i as nat)
            } else {
                0
            }) by {
                lemma_pow2_pos(i as nat);
                lemma_pow2_adds(i as nat, 1);
                lemma2_to64();
                let p = pow2(i as nat) as int;
                assert(pow2((i + 1) as nat) == p * 2);
                lemma_mod_breakdown(val as int, p, 2);
                assert((val as int) % (p * 2) == p * (((val as int) / p) % 2) + (val as int) % p);
                vstd::arithmetic::div_mod::lemma_mod_bound((val as int) / p, 2);
                assert((val as int) / p == (val as nat) / pow2(i as nat));
                if value_bit(val, i as nat) {
                    assert(((val as int) / p) % 2 == 1);
                    assert(p * (((val as int) / p) % 2) == p) by {
                        vstd::arithmetic::mul::lemma_mul_basics(p);
                    }
                } else {
                    assert(((val as int) / p) % 2 == 0);
                    assert(p * (((val as int) / p) % 2) == 0) by {
                        vstd::arithmetic::mul::lemma_mul_basics(p);
                    }
                }
            }
        }
        i = i + 1;
    }
    proof {
        vstd::arithmetic::div_mod::lemma_small_mod(val as nat, pow2(width as nat));
    }
}

} // verus!
