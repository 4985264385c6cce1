//! The recoverable decode error: a stored bit pattern that maps to no
//! variant of an explicit-discriminant enum.

use vstd::prelude::*;

verus! {

use vstd::arithmetic::power2::{pow2, lemma_pow2_adds, lemma_pow2_pos, lemma2_to64, lemma2_to64_rest};
use vstd::arithmetic::power2::lemma_pow2_strictly_increases;
use vstd::arithmetic::div_mod::{lemma_basic_div, lemma_div_denominator};
use vstd::string::StringExecFns;
use crate::bitspec::value_bit;

/// How many binary digits `v` needs: at least one, even for zero.
pub open spec fn spec_bin_digits(v: nat) -> nat
    decreases v,
{
    if v < 2 {
        1
    } else {
        1 + spec_bin_digits(v / 2)
    }
}

/// A value below `2^k` needs at most `k` binary digits.
proof fn lemma_bin_digits_le(v: nat, k: nat)
    requires
        1 <= k,
        v < pow2(k),
    ensures
        spec_bin_digits(v) <= k,
    decreases k,
{
    lemma_pow2_pos((k - 1) as nat);
    lemma_pow2_adds((k - 1) as nat, 1);
    lemma2_to64();
    if v >= 2 {
        lemma_bin_digits_le(v / 2, (k - 1) as nat);
    }
}

/// A value of `2^k` or more needs more than `k` binary digits.
proof fn lemma_bin_digits_gt(v: nat, k: nat)
    requires
        v >= pow2(k),
    ensures
        spec_bin_digits(v) > k,
    decreases k,
{
    lemma_pow2_pos(k);
    if k > 0 {
        lemma_pow2_adds((k - 1) as nat, 1);
        lemma2_to64();
        lemma_bin_digits_gt(v / 2, (k - 1) as nat);
    }
}

/// `v` rendered in binary, most significant digit first, zero-padded to at
/// least `width` digits and never shorter than its own digits.
pub open spec fn spec_binary(v: u64, width: nat) -> Seq<char> {
    let d = if spec_bin_digits(v as nat) > width {
        spec_bin_digits(v as nat)
    } else {
        width
    };
    Seq::new(
        d,
        |i: int|
            if value_bit(v, (d - 1 - i) as nat) {
                '1'
            } else {
                '0'
            },
    )
}

/// An unrecognized bit pattern, carrying the enum's type name, the raw
/// stored value, and the field's bit width for diagnostic rendering.
#[derive(Debug)]
pub struct Error {
    typename: String,
    value: u64,
    width: u32,
}

impl Error {
    /// The name of the enum type whose decoding failed.
    pub closed spec fn spec_typename(&self) -> Seq<char> {
        self.typename@
    }

    /// The raw bit pattern that matched no variant.
    pub closed spec fn spec_value(&self) -> u64 {
        self.value
    }

    /// The bit width of the field the pattern was read from.
    pub closed spec fn spec_width(&self) -> u32 {
        self.width
    }

    /// Packs up a decode failure.
    pub fn new(typename: String, value: u64, width: u32) -> (r: Error)
        ensures
            r.spec_typename() == typename@,
            r.spec_value() == value,
            r.spec_width() == width,
    {
        Error { typename, value, width }
    }

    /// The raw value that could not be decoded.
    pub fn raw_value(&self) -> (r: u64)
        ensures
            r == self.spec_value(),
    {
        self.value
    }

    /// The bit width of the offending field.
    pub fn width(&self) -> (r: u32)
        ensures
            r == self.spec_width(),
    {
        self.width
    }

    /// The name of the enum type.
    pub fn typename(&self) -> (r: &str)
        ensures
            r@ == self.spec_typename(),
    {
        self.typename.as_str()
    }

    /// The rendered diagnostic for this error.
    pub open spec fn spec_message(&self) -> Seq<char> {
        "unrecognized bit pattern for enum "@ + self.spec_typename() + ": 0b"@ + spec_binary(
            self.spec_value(),
            self.spec_width() as nat,
        )
    }

    /// Renders the diagnostic: the type name and the raw value in binary,
    /// zero-padded to the field's bit width.
    pub fn message(&self) -> (r: String)
        ensures
            r@ == self.spec_message(),
    {
        let w = self.width as usize;
        let v = self.value;
        // Collect the binary digits of the value, least significant first,
        // padded with zeros to at least `w` digits.
        let mut bits: Vec<bool> = Vec::new();
        let mut x = v;
        proof {
            lemma2_to64();
        }
        while bits.len() < w || x > 0 || bits.len() == 0
            invariant
                w == self.width,
                v == self.value,
                bits@.len() <= w + 65,
                x as nat == (v as nat) / pow2(bits@.len() as nat),
                forall|j: int|
                    0 <= j < bits@.len() ==> #[trigger] bits@[j] == value_bit(v, j as nat),
                bits@.len() > w && bits@.len() > 1 ==> (v as nat) >= pow2((bits@.len() - 1) as nat),
            decreases w + 66 - bits@.len(),
        {
            let ghost len = bits@.len() as nat;
            proof {
                lemma_pow2_pos(len);
                if x > 0 && len >= 64 {
                    lemma2_to64();
                    lemma2_to64_rest();
                    if len > 64 {
                        lemma_pow2_strictly_increases(64, len);
                    }
                    lemma_basic_div(v as int, pow2(len) as int);
                    assert(false);
                }
                if x > 0 {
                    vstd::arithmetic::div_mod::lemma_div_pos_is_pos(v as int, pow2(len) as int);
                    vstd::arithmetic::div_mod::lemma_fundamental_div_mod(
                        v as int,
                        pow2(len) as int,
                    );
                    vstd::arithmetic::div_mod::lemma_mod_bound(v as int, pow2(len) as int);
                    assert((v as int) >= pow2(len) * (x as int));
                    vstd::arithmetic::mul::lemma_mul_ordering(pow2(len) as int, x as int);
                }
                lemma_pow2_adds(len, 1);
                lemma2_to64();
                lemma_div_denominator(v as int, pow2(len) as int, 2);
            }
            bits.push(x % 2 == 1);
            x = x / 2;
        }
        let d = bits.len();
        proof {
            let len = bits@.len() as nat;
            let n = spec_bin_digits(v as nat);
            lemma_pow2_pos(len);
            assert((v as nat) < pow2(len)) by {
                vstd::arithmetic::div_mod::lemma_fundamental_div_mod(v as int, pow2(len) as int);
                vstd::arithmetic::div_mod::lemma_mod_bound(v as int, pow2(len) as int);
            }
            lemma_bin_digits_le(v as nat, len);
            if len > w && len > 1 {
                lemma_bin_digits_gt(v as nat, (len - 1) as nat);
                assert(n == len);
            } else {
                assert(n >= 1);
            }
            assert(len == if n > w {
                n
            } else {
                w as nat
            });
        }
        // Assemble the message, most significant digit first.
        let mut r = "unrecognized bit pattern for enum ".to_owned();
        r.append(self.typename.as_str());
        r.append(": 0b");
        let ghost head = r@;
        proof {
            assert(head =~= "unrecognized bit pattern for enum "@ + self.spec_typename()
                + ": 0b"@);
            assert(spec_binary(v, self.spec_width() as nat).take(0) =~= Seq::<char>::empty());
            assert(r@ =~= head + spec_binary(v, self.spec_width() as nat).take(0));
        }
        let mut k = d;
        while k > 0
            invariant
                w == self.width,
                v == self.value,
                k <= d,
                d == bits@.len(),
                spec_binary(v, w as nat).len() == d,
                forall|j: int| 0 <= j < d ==> #[trigger] bits@[j] == value_bit(v, j as nat),
                forall|i: int|
                    0 <= i < d ==> #[trigger] spec_binary(v, w as nat)[i] == if value_bit(
                        v,
                        (d - 1 - i) as nat,
                    ) {
                        '1'
                    } else {
                        '0'
                    },
                r@ == head + spec_binary(v, w as nat).take((d - k) as int),
            decreases k,
        {
            if bits[k - 1] {
                r.append("1");
                proof {
                    reveal_strlit("1");
                }
            } else {
                r.append("0");
                proof {
                    reveal_strlit("0");
                }
            }
            proof {
                assert(spec_binary(v, w as nat)[d - k] == if value_bit(v, (k - 1) as nat) {
                    '1'
                } else {
                    '0'
                });
                assert(r@ =~= head + spec_binary(v, w as nat).take((d - k + 1) as int));
            }
            k = k - 1;
        }
        proof {
            assert(spec_binary(v, w as nat).take(d as int) =~= spec_binary(v, w as nat));
            assert(r@ =~= self.spec_message());
        }
        r
    }

}

} // verus!
