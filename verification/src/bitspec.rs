//! The mathematical model of a packed byte buffer: which bit stands where,
//! and what value a run of bits denotes.
//!
//! Bits are numbered from 0. Bit `i` of the buffer lives in byte `i / 8`, and
//! within that byte, position `i % 8` counted from the least significant bit.
//! A field occupying bits `start .. start + width` denotes the integer whose
//! bit `j` is buffer bit `start + j`, for `j < width` (LSB first).

use vstd::prelude::*;

verus! {

use vstd::arithmetic::power2::{pow2, lemma_pow2_adds, lemma_pow2_pos, lemma2_to64};

/// True when bit `i` of the packed buffer `data` is set.
pub open spec fn bit_at(data: Seq<u8>, i: nat) -> bool
    recommends
        i < data.len() * 8,
{
    (data[(i / 8) as int] as nat / pow2(i % 8)) % 2 == 1
}

/// The integer denoted by the `width` bits of `data` starting at bit `start`,
/// least significant bit first.
pub open spec fn bits_value(data: Seq<u8>, start: nat, width: nat) -> nat
    recommends
        start + width <= data.len() * 8,
    decreases width,
{
    if width == 0 {
        0
    } else {
        bits_value(data, start, (width - 1) as nat) + if bit_at(
            data,
            (start + width - 1) as nat,
        ) {
            pow2((width - 1) as nat)
        } else {
            0
        }
    }
}

/// True when bit `j` of the plain value `v` is set.
pub open spec fn value_bit(v: u64, j: nat) -> bool {
    (v as nat / pow2(j)) % 2 == 1
}

/// A value stored in `width` bits is below `2^width`.
pub proof fn lemma_bits_value_bound(data: Seq<u8>, start: nat, width: nat)
    ensures
        bits_value(data, start, width) < pow2(width),
    decreases width,
{
    lemma_pow2_pos(width);
    if width > 0 {
        lemma_bits_value_bound(data, start, (width - 1) as nat);
        lemma_pow2_adds((width - 1) as nat, 1);
        lemma2_to64();
    }
}

/// A buffer of zero bytes stores zero in every field.
pub proof fn lemma_bits_value_zero(data: Seq<u8>, start: nat, width: nat)
    requires
        forall|k: int| 0 <= k < data.len() ==> #[trigger] data[k] == 0,
        start + width <= data.len() * 8,
    ensures
        bits_value(data, start, width) == 0,
    decreases width,
{
    if width > 0 {
        lemma_bits_value_zero(data, start, (width - 1) as nat);
        let i = (start + width - 1) as nat;
        assert(data[(i / 8) as int] == 0);
        lemma_pow2_pos(i % 8);
        assert(!bit_at(data, i));
    }
}

/// Two buffers that agree on every bit of a field store the same value in
/// that field. This is the heart of non-interference: a write that leaves a
/// field's bits alone leaves its value alone.
pub proof fn lemma_bits_value_agree(d1: Seq<u8>, d2: Seq<u8>, start: nat, width: nat)
    requires
        forall|j: nat| j < width ==> #[trigger] bit_at(d1, (start + j) as nat) == bit_at(
            d2,
            (start + j) as nat,
        ),
    ensures
        bits_value(d1, start, width) == bits_value(d2, start, width),
    decreases width,
{
    if width > 0 {
        lemma_bits_value_agree(d1, d2, start, (width - 1) as nat);
        assert(bit_at(d1, (start + (width - 1) as nat) as nat) == bit_at(
            d2,
            (start + (width - 1) as nat) as nat,
        ));
    }
}

} // verus!
