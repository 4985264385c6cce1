//! The enum codec: a closed set of named variants encoded to and decoded
//! from a fixed-width bit pattern.
//!
//! The two construction modes of the codec form a tagged choice made at
//! definition time. In positional mode the variant count must be an exact
//! power of two, the discriminant is the variant's ordinal position, and
//! decoding a stored pattern always succeeds. In explicit-discriminant mode
//! the caller fixes the width and each variant's discriminant; decoding is
//! partial and an unmapped pattern yields an [`Error`]. Either way, encoding
//! a valid variant always succeeds.

use vstd::prelude::*;

verus! {

use vstd::arithmetic::power2::{pow2, lemma_pow2_strictly_increases, lemma2_to64, lemma2_to64_rest};
use vstd::bits::{lemma_u64_shl_is_mul, lemma_u64_pow2_no_overflow};
use crate::error::Error;
use crate::schema::SchemaError;

/// How the discriminants of a codec were fixed at definition time.
#[derive(Debug, Clone, Copy, PartialEq, Eq, Structural)]
pub enum EncodeMode {
    /// Discriminant = ordinal position; the variant count is a power of two.
    Positional,
    /// Every discriminant was given explicitly; decode may fail.
    ExplicitDiscriminant,
}

/// `n` is an exact power of two.
pub open spec fn is_power_of_two(n: nat) -> bool {
    exists|k: nat| k < 64 && pow2(k) == n
}

/// The least index of a variant whose discriminant does not fit in `width`
/// bits, assuming one exists.
pub open spec fn first_bad_discriminant(vs: Seq<(String, u64)>, width: u32) -> int
    decreases vs.len(),
{
    if vs.len() == 0 {
        0
    } else if (vs[0].1 as nat) >= pow2(width as nat) {
        0
    } else {
        1 + first_bad_discriminant(vs.drop_first(), width)
    }
}

/// A symbolic field type: a closed set of named values, each mapped to a
/// unique discriminant below `2^bit_width`.
#[derive(Debug)]
pub struct EnumCodec {
    typename: String,
    bit_width: u32,
    mode: EncodeMode,
    variants: Vec<(String, u64)>,
}

impl EnumCodec {
    /// The name of the symbolic type, carried into decode errors.
    pub closed spec fn spec_typename(&self) -> Seq<char> {
        self.typename@
    }

    /// How many bits an encoded value of this codec occupies.
    pub closed spec fn spec_bit_width(&self) -> u32 {
        self.bit_width
    }

    /// Which construction mode fixed the discriminants.
    pub closed spec fn spec_mode(&self) -> EncodeMode {
        self.mode
    }

    /// The variant names, in declaration order.
    pub closed spec fn variant_names(&self) -> Seq<Seq<char>> {
        Seq::new(self.variants@.len(), |i: int| self.variants@[i].0@)
    }

    /// The discriminants, in declaration order.
    pub closed spec fn discriminants(&self) -> Seq<u64> {
        Seq::new(self.variants@.len(), |i: int| self.variants@[i].1)
    }

    /// The codec invariant, established at definition time: the width is at
    /// most 64 bits, every discriminant is unique and fits the width, and a
    /// positional codec maps each ordinal below the exact power-of-two
    /// variant count to itself.
    pub open spec fn wf(&self) -> bool {
        &&& self.spec_bit_width() <= 64
        &&& forall|i: int|
            0 <= i < self.discriminants().len() ==> (#[trigger] self.discriminants()[i] as nat)
                < pow2(self.spec_bit_width() as nat)
        &&& forall|i: int, j: int|
            0 <= i < j < self.discriminants().len() ==> #[trigger] self.discriminants()[i]
                != #[trigger] self.discriminants()[j]
        &&& self.spec_mode() is Positional ==> {
            &&& self.discriminants().len() == pow2(self.spec_bit_width() as nat)
            &&& forall|i: int|
                0 <= i < self.discriminants().len() ==> #[trigger] self.discriminants()[i] == i
        }
    }

    /// How many variants the codec has.
    pub fn variant_count(&self) -> (r: usize)
        ensures
            r == self.discriminants().len(),
    {
        self.variants.len()
    }

    /// The bit width of the codec.
    pub fn bit_width(&self) -> (r: u32)
        ensures
            r == self.spec_bit_width(),
    {
        self.bit_width
    }

    /// Defines a positional codec: the discriminant of each variant is its
    /// ordinal position. Succeeds exactly when the variant count is a power
    /// of two; the bit width is then its base-2 logarithm.
    pub fn positional(typename: String, variant_names: Vec<String>) -> (r: Result<
        EnumCodec,
        SchemaError,
    >)
        ensures
            r is Ok <==> is_power_of_two(variant_names@.len()),
            r matches Ok(c) ==> {
                &&& c.wf()
                &&& c.spec_mode() is Positional
                &&& c.spec_typename() == typename@
                &&& c.variant_names() == Seq::new(variant_names@.len(), |i: int| variant_names@[i]@)
                &&& pow2(c.spec_bit_width() as nat) == variant_names@.len()
                &&& c.discriminants().len() == variant_names@.len()
            },
            r matches Err(e) ==> e == (SchemaError::NonPowerOfTwoVariants {
                count: variant_names@.len() as usize,
            }),
    {
        let count = variant_names.len();
        let mut width: u32 = 0;
        let mut p: usize = 1;
        proof {
            lemma2_to64();
        }
        while p < count
            invariant
                count == variant_names@.len(),
                p as nat == pow2(width as nat),
                width < 64,
                width > 0 ==> pow2((width - 1) as nat) < count,
            decreases 64 - width,
        {
            if p > usize::MAX / 2 {
                // No larger power of two fits in a length, so the count is
                // not a power of two.
                proof {
                    lemma2_to64();
                    assert forall|k: nat| k < 64 && pow2(k) == count implies false by {
                        if k < width as nat {
                            lemma_pow2_strictly_increases(k, width as nat);
                        } else if k == width as nat {
                            assert(pow2(k) == p as nat);
                        } else {
                            if k > (width + 1) as nat {
                                lemma_pow2_strictly_increases((width + 1) as nat, k);
                            }
                            vstd::arithmetic::power2::lemma_pow2_adds(width as nat, 1);
                            assert(pow2((width + 1) as nat) == p as nat * 2);
                        }
                    }
                }
                return Err(SchemaError::NonPowerOfTwoVariants { count });
            }
            p = p * 2;
            width = width + 1;
            proof {
                lemma2_to64();
                vstd::arithmetic::power2::lemma_pow2_adds((width - 1) as nat, 1);
                vstd::arithmetic::power2::lemma_pow2_pos(width as nat);
                if width >= 64 {
                    lemma2_to64_rest();
                    if width > 64 {
                        lemma_pow2_strictly_increases(64, width as nat);
                    }
                    assert(false);
                }
            }
        }
        if p != count {
            proof {
                assert forall|k: nat| k < 64 && pow2(k) == count implies false by {
                    vstd::arithmetic::power2::lemma_pow2_pos(k);
                    if k < width as nat {
                        assert(width > 0);
                        if k < (width - 1) as nat {
                            lemma_pow2_strictly_increases(k, (width - 1) as nat);
                        }
                        assert(pow2(k) <= pow2((width - 1) as nat));
                    } else if k > width as nat {
                        lemma_pow2_strictly_increases(width as nat, k);
                    }
                }
            }
            return Err(SchemaError::NonPowerOfTwoVariants { count });
        }
        let mut variants: Vec<(String, u64)> = Vec::new();
        let mut i: usize = 0;
        while i < count
            invariant
                i <= count,
                count == variant_names@.len(),
                variants@.len() == i,
                forall|j: int| 0 <= j < i ==> (#[trigger] variants@[j]).1 == j,
                forall|j: int| 0 <= j < i ==> (#[trigger] variants@[j]).0@ == variant_names@[j]@,
            decreases count - i,
        {
            let name = variant_names[i].clone();
            variants.push((name, i as u64));
            i = i + 1;
        }
        let codec = EnumCodec {
            typename,
            bit_width: width,
            mode: EncodeMode::Positional,
            variants,
        };
        proof {
            assert(codec.variant_names() =~= Seq::new(
                variant_names@.len(),
                |i: int| variant_names@[i]@,
            ));
            assert forall|i2: int| 0 <= i2 < codec.discriminants().len() implies (
            #[trigger] codec.discriminants()[i2] as nat) < pow2(codec.spec_bit_width() as nat) by {
                assert(codec.discriminants()[i2] == codec.variants@[i2].1);
            }
        }
        Ok(codec)
    }

    /// Defines an explicit-discriminant codec of the given width. Each
    /// discriminant must already be distinct; the definition is rejected
    /// when the width exceeds 64 bits or a discriminant does not fit in it,
    /// naming the first offending variant.
    pub fn explicit(typename: String, bit_width: u32, variants: Vec<(String, u64)>) -> (r: Result<
        EnumCodec,
        SchemaError,
    >)
        requires
            forall|i: int, j: int|
                0 <= i < j < variants@.len() ==> #[trigger] variants@[i].1 != #[trigger] variants@[j].1,
        ensures
            r is Ok <==> bit_width <= 64 && forall|i: int|
                0 <= i < variants@.len() ==> (#[trigger] variants@[i].1 as nat) < pow2(
                    bit_width as nat,
                ),
            r matches Ok(c) ==> {
                &&& c.wf()
                &&& c.spec_mode() is ExplicitDiscriminant
                &&& c.spec_typename() == typename@
                &&& c.spec_bit_width() == bit_width
                &&& c.variant_names() == Seq::new(variants@.len(), |i: int| variants@[i].0@)
                &&& c.discriminants() == Seq::new(variants@.len(), |i: int| variants@[i].1)
            },
            bit_width > 64 ==> (r matches Err(e) && e == (SchemaError::WidthTooLarge {
                name: typename,
                width: bit_width,
            })),
            r is Err && bit_width <= 64 ==> {
                let bad = first_bad_discriminant(variants@, bit_width);
                &&& 0 <= bad < variants@.len()
                &&& (r matches Err(e) && e == (SchemaError::DiscriminantOutOfRange {
                    variant: variants@[bad].0,
                    discriminant: variants@[bad].1,
                    bit_width: bit_width,
                }))
            },
    {
        if bit_width > 64 {
            return Err(SchemaError::WidthTooLarge { name: typename, width: bit_width });
        }
        let mut i: usize = 0;
        let count = variants.len();
        while i < count
            invariant
                i <= count,
                count == variants@.len(),
                bit_width <= 64,
                forall|j: int|
                    0 <= j < i ==> (#[trigger] variants@[j].1 as nat) < pow2(bit_width as nat),
            decreases count - i,
        {
            let d = variants[i].1;
            let fits: bool = fits_in_width(d, bit_width);
            if !fits {
                let name = variants[i].0.clone();
                proof {
                    lemma_first_bad_stops(variants@, bit_width, i as int);
                }
                return Err(SchemaError::DiscriminantOutOfRange {
                    variant: name,
                    discriminant: d,
                    bit_width: bit_width,
                });
            }
            i = i + 1;
        }
        let codec = EnumCodec {
            typename,
            bit_width,
            mode: EncodeMode::ExplicitDiscriminant,
            variants,
        };
        proof {
            assert(codec.variant_names() =~= Seq::new(
                codec.variants@.len(),
                |i: int| codec.variants@[i].0@,
            ));
            assert(codec.discriminants() =~= Seq::new(
                codec.variants@.len(),
                |i: int| codec.variants@[i].1,
            ));
        }
        Ok(codec)
    }

    /// Encodes a variant, given by ordinal position, to its discriminant.
    /// Encoding always succeeds and the result fits the codec's width.
    pub fn encode(&self, variant: usize) -> (r: u64)
        requires
            self.wf(),
            variant < self.discriminants().len(),
        ensures
            r == self.discriminants()[variant as int],
            (r as nat) < pow2(self.spec_bit_width() as nat),
    {
        self.variants[variant].1
    }

    /// Decodes a raw bit pattern to the ordinal position of the variant it
    /// stands for. Succeeds if and only if some variant carries that
    /// discriminant — always, for a stored pattern of a positional codec —
    /// and otherwise reports the type name, the raw value and the width.
    pub fn decode(&self, raw: u64) -> (r: Result<usize, Error>)
        requires
            self.wf(),
        ensures
            r matches Ok(i) ==> i < self.discriminants().len() && self.discriminants()[i as int]
                == raw,
            r matches Err(e) ==> {
                &&& forall|j: int|
                    0 <= j < self.discriminants().len() ==> #[trigger] self.discriminants()[j]
                        != raw
                &&& e.spec_typename() == self.spec_typename()
                &&& e.spec_value() == raw
                &&& e.spec_width() == self.spec_bit_width()
            },
            (exists|j: int|
                0 <= j < self.discriminants().len() && #[trigger] self.discriminants()[j] == raw)
                <==> r is Ok,
    {
        let count = self.variants.len();
        let mut i: usize = 0;
        while i < count
            invariant
                i <= count,
                count == self.discriminants().len(),
                forall|j: int| 0 <= j < i ==> #[trigger] self.discriminants()[j] != raw,
            decreases count - i,
        {
            if self.variants[i].1 == raw {
                proof {
                    assert(self.discriminants()[i as int] == raw);
                }
                return Ok(i);
            }
            i = i + 1;
        }
        Err(Error::new(self.typename.clone(), raw, self.bit_width))
    }
}

/// Whether the value `d` fits in `w` bits.
fn fits_in_width(d: u64, w: u32) -> (r: bool)
    requires
        w <= 64,
    ensures
        r == ((d as nat) < pow2(w as nat)),
{
    if w == 64 {
        proof {
            lemma2_to64_rest();
        }
        true
    } else {
        proof {
            lemma_u64_pow2_no_overflow(w as nat);
            lemma_u64_shl_is_mul(1u64, w as u64);
        }
        d < (1u64 << (w as u64))
    }
}

/// An offending discriminant at position `i`, with none before it, is the
/// first offender.
proof fn lemma_first_bad_stops(vs: Seq<(String, u64)>, width: u32, i: int)
    requires
        0 <= i < vs.len(),
        forall|j: int| 0 <= j < i ==> (#[trigger] vs[j].1 as nat) < pow2(width as nat),
        (vs[i].1 as nat) >= pow2(width as nat),
    ensures
        first_bad_discriminant(vs, width) == i,
    decreases i,
{
    if i > 0 {
        assert((vs[0].1 as nat) < pow2(width as nat));
        assert forall|j: int| 0 <= j < i - 1 implies (#[trigger] vs.drop_first()[j].1 as nat)
            < pow2(width as nat) by {
            assert(vs.drop_first()[j] == vs[j + 1]);
        }
        assert(vs.drop_first()[i - 1] == vs[i]);
        lemma_first_bad_stops(vs.drop_first(), width, i - 1);
    }
}

} // verus!
