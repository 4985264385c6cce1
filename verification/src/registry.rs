//! The specifier registry: the storage primitives that back a field of a
//! given bit width, and the bit-packing operations on those primitives.
//!
//! `push_bits` assembles a value eight-or-fewer bits at a time; `pop_bits`
//! disassembles one the same way. `storage_primitive_for` picks the narrowest
//! unsigned width that can hold a field.

use vstd::prelude::*;

verus! {

use vstd::arithmetic::power2::{
    pow2,
    lemma_pow2_adds,
    lemma_pow2_pos,
    lemma_pow2_strictly_increases,
    lemma2_to64,
};
use vstd::arithmetic::mul::lemma_mul_inequality;
use vstd::arithmetic::div_mod::lemma_small_mod;
use vstd::bits::{
    lemma_u8_shl_is_mul,
    lemma_u8_pow2_no_overflow,
    lemma_u8_low_bits_mask_is_mod,
    lemma_u16_low_bits_mask_is_mod,
    lemma_u32_low_bits_mask_is_mod,
    lemma_u64_low_bits_mask_is_mod,
    lemma_u16_shl_is_mul,
    lemma_u32_shl_is_mul,
    lemma_u64_shl_is_mul,
    lemma_u16_shr_is_div,
    lemma_u32_shr_is_div,
    lemma_u64_shr_is_div,
    lemma_u8_shr_is_div,
    lemma_u16_pow2_no_overflow,
    lemma_u32_pow2_no_overflow,
    lemma_u64_pow2_no_overflow,
};

/// Implemented only by the accumulator primitives of this registry; gives
/// each its mathematical reading and its width in bits.
pub trait Sealed {
    /// The value this primitive holds, as a natural number.
    spec fn as_nat(&self) -> nat;

    /// How many bits the primitive has.
    spec fn storage_bits() -> nat;
}

/// An accumulator that values can be pushed into, eight or fewer bits at a
/// time, while assembling a field value.
pub trait PushBits: Sealed {
    /// Shifts the accumulator left by `amount` bits and ORs in the low
    /// `amount` bits of `bits`. The accumulator must have room: what it holds
    /// so far stays below `2^(width - amount)`.
    fn push_bits(&mut self, amount: u32, bits: u8)
        requires
            amount <= 8,
            amount as nat <= Self::storage_bits(),
            old(self).as_nat() < pow2((Self::storage_bits() - amount as nat) as nat),
        ensures
            final(self).as_nat() == old(self).as_nat() * pow2(amount as nat) + (bits as nat) % pow2(
                amount as nat,
            );
}

/// An accumulator that a field value can be popped out of, eight or fewer
/// bits at a time, while disassembling it into bytes.
pub trait PopBits: Sealed {
    /// Returns the low `amount` bits of the accumulator as a byte and shifts
    /// the accumulator right by `amount` bits.
    fn pop_bits(&mut self, amount: u32) -> (r: u8)
        requires
            amount <= 8,
        ensures
            r as nat == old(self).as_nat() % pow2(amount as nat),
            final(self).as_nat() == old(self).as_nat() / pow2(amount as nat);
}

/// The low `a` bits of the byte `bits`, read as `bits mod 2^a`.
fn low_byte(bits: u8, a: u8) -> (r: u8)
    requires
        a <= 8,
    ensures
        r as nat == (bits as nat) % pow2(a as nat),
        (r as nat) < pow2(a as nat),
{
    proof {
        lemma2_to64();
        lemma_pow2_pos(a as nat);
    }
    if a == 8 {
        proof {
            lemma_small_mod(bits as nat, pow2(8));
        }
        bits
    } else {
        proof {
            lemma_u8_pow2_no_overflow(a as nat);
            lemma_u8_shl_is_mul(1u8, a);
            lemma_u8_low_bits_mask_is_mod(bits, a as nat);
        }
        bits & ((1u8 << a) - 1)
    }
}

/// An accumulator below `2^(w - a)`, shifted up by `a` bits and joined with
/// `a` fresh low bits, still fits in `w` bits.
proof fn lemma_push_fits(x: nat, a: nat, w: nat)
    requires
        a <= w,
        x < pow2((w - a) as nat),
    ensures
        x * pow2(a) + pow2(a) <= pow2(w),
        x * pow2(a) <= pow2(w) - pow2(a),
{
    lemma_pow2_pos(a);
    lemma_pow2_pos((w - a) as nat);
    lemma_pow2_adds((w - a) as nat, a);
    lemma_mul_inequality(x as int + 1, pow2((w - a) as nat) as int, pow2(a) as int);
    vstd::arithmetic::mul::lemma_mul_is_distributive_add_other_way(
        pow2(a) as int,
        x as int,
        1,
    );
}

impl Sealed for bool {
    open spec fn as_nat(&self) -> nat {
        if *self {
            1
        } else {
            0
        }
    }

    open spec fn storage_bits() -> nat {
        1
    }
}

impl Sealed for u8 {
    open spec fn as_nat(&self) -> nat {
        *self as nat
    }

    open spec fn storage_bits() -> nat {
        8
    }
}

impl Sealed for u16 {
    open spec fn as_nat(&self) -> nat {
        *self as nat
    }

    open spec fn storage_bits() -> nat {
        16
    }
}

impl Sealed for u32 {
    open spec fn as_nat(&self) -> nat {
        *self as nat
    }

    open spec fn storage_bits() -> nat {
        32
    }
}

impl Sealed for u64 {
    open spec fn as_nat(&self) -> nat {
        *self as nat
    }

    open spec fn storage_bits() -> nat {
        64
    }
}

impl PushBits for u8 {
    fn push_bits(&mut self, amount: u32, bits: u8) {
        proof {
            lemma2_to64();
        }
        if amount == 8 {
            // The accumulator holds less than 2^0 = 1, so it is 0.
            *self = bits;
            proof {
                lemma_small_mod(bits as nat, pow2(8));
            }
        } else {
            let a: u8 = amount as u8;
            let low: u8 = low_byte(bits, a);
            let x = *self;
            proof {
                lemma_push_fits(x as nat, a as nat, 8);
                lemma_u8_pow2_no_overflow(a as nat);
                lemma_u8_shl_is_mul(x, a);
                lemma_u8_shl_is_mul(1u8, a);
                assert(((x << a) | low) == (x << a) + low) by (bit_vector)
                    requires
                        a < 8,
                        low < (1u8 << a),
                ;
            }
            *self = (x << a) | low;
        }
    }
}

impl PushBits for u16 {
    fn push_bits(&mut self, amount: u32, bits: u8) {
        let a: u8 = amount as u8;
        let low: u8 = low_byte(bits, a);
        let x = *self;
        proof {
            lemma2_to64();
            lemma_push_fits(x as nat, a as nat, 16);
            lemma_u16_pow2_no_overflow(a as nat);
            lemma_u16_shl_is_mul(x, a as u16);
            lemma_u16_shl_is_mul(1u16, a as u16);
            assert(((x << (a as u16)) | (low as u16)) == (x << (a as u16)) + (low as u16))
                by (bit_vector)
                requires
                    a <= 8,
                    (low as u16) < (1u16 << (a as u16)),
            ;
        }
        *self = (x << (a as u16)) | (low as u16);
    }
}

impl PushBits for u32 {
    fn push_bits(&mut self, amount: u32, bits: u8) {
        let a: u8 = amount as u8;
        let low: u8 = low_byte(bits, a);
        let x = *self;
        proof {
            lemma2_to64();
            lemma_push_fits(x as nat, a as nat, 32);
            lemma_u32_pow2_no_overflow(a as nat);
            lemma_u32_shl_is_mul(x, a as u32);
            lemma_u32_shl_is_mul(1u32, a as u32);
            assert(((x << (a as u32)) | (low as u32)) == (x << (a as u32)) + (low as u32))
                by (bit_vector)
                requires
                    a <= 8,
                    (low as u32) < (1u32 << (a as u32)),
            ;
        }
        *self = (x << (a as u32)) | (low as u32);
    }
}

impl PushBits for u64 {
    fn push_bits(&mut self, amount: u32, bits: u8) {
        let a: u8 = amount as u8;
        let low: u8 = low_byte(bits, a);
        let x = *self;
        proof {
            lemma2_to64();
            lemma_push_fits(x as nat, a as nat, 64);
            lemma_u64_pow2_no_overflow(a as nat);
            lemma_u64_shl_is_mul(x, a as u64);
            lemma_u64_shl_is_mul(1u64, a as u64);
            assert(((x << (a as u64)) | (low as u64)) == (x << (a as u64)) + (low as u64))
                by (bit_vector)
                requires
                    a <= 8,
                    (low as u64) < (1u64 << (a as u64)),
            ;
        }
        *self = (x << (a as u64)) | (low as u64);
    }
}

impl PopBits for u8 {
    fn pop_bits(&mut self, amount: u32) -> (r: u8) {
        proof {
            lemma2_to64();
        }
        if amount == 8 {
            let r = *self;
            *self = 0;
            proof {
                lemma_small_mod(r as nat, pow2(8));
            }
            r
        } else {
            let a: u8 = amount as u8;
            let x = *self;
            let r = low_byte(x, a);
            proof {
                lemma_u8_shr_is_div(x, a);
            }
            *self = x >> a;
            r
        }
    }
}

impl PopBits for u16 {
    fn pop_bits(&mut self, amount: u32) -> (r: u8) {
        let a: u16 = amount as u16;
        let x = *self;
        proof {
            lemma2_to64();
            lemma_u16_pow2_no_overflow(a as nat);
            vstd::bits::lemma_u16_shl_is_mul(1u16, a);
            lemma_u16_low_bits_mask_is_mod(x, a as nat);
            lemma_u16_shr_is_div(x, a);
            lemma_pow2_pos(a as nat);
            if (a as nat) < 8 {
                lemma_pow2_strictly_increases(a as nat, 8);
            }
        }
        let r = (x & ((1u16 << a) - 1)) as u8;
        *self = x >> a;
        r
    }
}

impl PopBits for u32 {
    fn pop_bits(&mut self, amount: u32) -> (r: u8) {
        let a: u32 = amount;
        let x = *self;
        proof {
            lemma2_to64();
            lemma_u32_pow2_no_overflow(a as nat);
            vstd::bits::lemma_u32_shl_is_mul(1u32, a);
            lemma_u32_low_bits_mask_is_mod(x, a as nat);
            lemma_u32_shr_is_div(x, a);
            lemma_pow2_pos(a as nat);
            if (a as nat) < 8 {
                lemma_pow2_strictly_increases(a as nat, 8);
            }
        }
        let r = (x & ((1u32 << a) - 1)) as u8;
        *self = x >> a;
        r
    }
}

impl PopBits for u64 {
    fn pop_bits(&mut self, amount: u32) -> (r: u8) {
        let a: u64 = amount as u64;
        let x = *self;
        proof {
            lemma2_to64();
            lemma_u64_pow2_no_overflow(a as nat);
            vstd::bits::lemma_u64_shl_is_mul(1u64, a);
            lemma_u64_low_bits_mask_is_mod(x, a as nat);
            lemma_u64_shr_is_div(x, a);
            lemma_pow2_pos(a as nat);
            if (a as nat) < 8 {
                lemma_pow2_strictly_increases(a as nat, 8);
            }
        }
        let r = (x & ((1u64 << a) - 1)) as u8;
        *self = x >> a;
        r
    }
}

/// The width in bits of the narrowest unsigned storage primitive that can
/// hold a `bit_width`-bit field, or `None` when no primitive can: widths
/// beyond 64 are rejected at definition time.
pub fn storage_primitive_for(bit_width: u32) -> (r: Option<u32>)
    ensures
        r == if bit_width <= 8 {
            Some(8u32)
        } else if bit_width <= 16 {
            Some(16u32)
        } else if bit_width <= 32 {
            Some(32u32)
        } else if bit_width <= 64 {
            Some(64u32)
        } else {
            None::<u32>
        },
{
    if bit_width <= 8 {
        Some(8)
    } else if bit_width <= 16 {
        Some(16)
    } else if bit_width <= 32 {
        Some(32)
    } else if bit_width <= 64 {
        Some(64)
    } else {
        None
    }
}

/// A raw bit pattern on its way into or out of a packed buffer.
pub struct Bits<T>(pub T);

impl<T> Bits<T> {
    /// Returns the raw underlying representation.
    pub fn into_raw(self) -> (r: T)
        ensures
            r == self.0,
    {
        self.0
    }
}

/// Conversion of a face value into its raw bit pattern.
pub trait IntoBits<T> where Self: Sized {
    /// The bit pattern this value encodes to.
    spec fn spec_into_bits(&self) -> T;

    /// Wraps the encoding of `self`.
    fn into_bits(self) -> (r: Bits<T>)
        ensures
            r.0 == self.spec_into_bits();
}

/// Conversion of a raw bit pattern back into a face value.
pub trait FromBits<T> where Self: Sized {
    /// Which raw patterns decode to a face value.
    spec fn bits_in_range(raw: &T) -> bool;

    /// The face value a raw pattern decodes to.
    spec fn spec_from_bits(raw: &T) -> Self;

    /// Decodes a raw pattern; only in-range patterns may arrive here.
    fn from_bits(bits: Bits<T>) -> (r: Self)
        requires
            Self::bits_in_range(&bits.0),
        ensures
            r == Self::spec_from_bits(&bits.0);
}

impl IntoBits<u8> for bool {
    open spec fn spec_into_bits(&self) -> u8 {
        if *self {
            1
        } else {
            0
        }
    }

    fn into_bits(self) -> (r: Bits<u8>) {
        Bits(if self {
            1
        } else {
            0
        })
    }
}

impl FromBits<u8> for bool {
    open spec fn bits_in_range(raw: &u8) -> bool {
        *raw <= 1
    }

    open spec fn spec_from_bits(raw: &u8) -> bool {
        *raw == 1
    }

    fn from_bits(bits: Bits<u8>) -> (r: bool) {
        bits.into_raw() == 1
    }
}

impl IntoBits<u8> for u8 {
    open spec fn spec_into_bits(&self) -> u8 {
        *self
    }

    fn into_bits(self) -> (r: Bits<u8>) {
        Bits(self)
    }
}

impl FromBits<u8> for u8 {
    open spec fn bits_in_range(raw: &u8) -> bool {
        true
    }

    open spec fn spec_from_bits(raw: &u8) -> u8 {
        *raw
    }

    fn from_bits(bits: Bits<u8>) -> (r: u8) {
        bits.into_raw()
    }
}

impl IntoBits<u16> for u16 {
    open spec fn spec_into_bits(&self) -> u16 {
        *self
    }

    fn into_bits(self) -> (r: Bits<u16>) {
        Bits(self)
    }
}

impl FromBits<u16> for u16 {
    open spec fn bits_in_range(raw: &u16) -> bool {
        true
    }

    open spec fn spec_from_bits(raw: &u16) -> u16 {
        *raw
    }

    fn from_bits(bits: Bits<u16>) -> (r: u16) {
        bits.into_raw()
    }
}

impl IntoBits<u32> for u32 {
    open spec fn spec_into_bits(&self) -> u32 {
        *self
    }

    fn into_bits(self) -> (r: Bits<u32>) {
        Bits(self)
    }
}

impl FromBits<u32> for u32 {
    open spec fn bits_in_range(raw: &u32) -> bool {
        true
    }

    open spec fn spec_from_bits(raw: &u32) -> u32 {
        *raw
    }

    fn from_bits(bits: Bits<u32>) -> (r: u32) {
        bits.into_raw()
    }
}

impl IntoBits<u64> for u64 {
    open spec fn spec_into_bits(&self) -> u64 {
        *self
    }

    fn into_bits(self) -> (r: Bits<u64>) {
        Bits(self)
    }
}

impl FromBits<u64> for u64 {
    open spec fn bits_in_range(raw: &u64) -> bool {
        true
    }

    open spec fn spec_from_bits(raw: &u64) -> u64 {
        *raw
    }

    fn from_bits(bits: Bits<u64>) -> (r: u64) {
        bits.into_raw()
    }
}

} // verus!
