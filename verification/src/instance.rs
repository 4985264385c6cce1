//! A packed struct instance: a fixed-length byte buffer laid out by a
//! validated [`Layout`], with bit-exact field accessors.
//!
//! A fresh instance is zero-filled, so every getter reads 0. Setting a field
//! changes that field's value exactly and provably leaves every other field
//! untouched, even where two fields share a byte. Reading is pure: a getter
//! returns the same value however often it is called, until a setter
//! intervenes.

use vstd::prelude::*;

verus! {

use vstd::arithmetic::power2::pow2;
use vstd::arithmetic::div_mod::lemma_fundamental_div_mod;
use crate::accessor::{get_bits, set_bits};
use crate::bitspec::{bit_at, bits_value, lemma_bits_value_agree, lemma_bits_value_zero};
use crate::codec::EnumCodec;
use crate::error::Error;
use crate::layout::{lemma_width_sum_monotone, width_sum, Face, Layout, TotalSize};

/// One packed struct: its layout and the byte buffer it exclusively owns.
#[derive(Debug)]
pub struct PackedStruct {
    layout: Layout,
    data: Vec<u8>,
}

impl PackedStruct {
    /// The layout this instance was created from.
    pub closed spec fn spec_layout(&self) -> Layout {
        self.layout
    }

    /// The bytes of the instance.
    pub closed spec fn spec_data(&self) -> Seq<u8> {
        self.data@
    }

    /// The instance invariant: a well-formed layout and a buffer of exactly
    /// `total_bits / 8` bytes.
    pub open spec fn wf(&self) -> bool {
        &&& self.spec_layout().wf()
        &&& self.spec_data().len() == self.spec_layout().spec_total_bits() / 8
    }

    /// The value stored in field `i`.
    pub open spec fn field_value(&self, i: int) -> nat {
        bits_value(
            self.spec_data(),
            self.spec_layout().field_offset(i),
            self.spec_layout().field_width(i) as nat,
        )
    }

    /// The buffer covers every field's bits exactly: `total_bits` is a
    /// multiple of 8, so `total_bits / 8` bytes hold `total_bits` bits.
    proof fn lemma_buffer_covers(&self, i: int)
        requires
            self.wf(),
            0 <= i < self.spec_layout().spec_fields().len(),
        ensures
            self.spec_layout().field_offset(i) + self.spec_layout().field_width(i) as nat
                <= self.spec_data().len() * 8,
            self.spec_data().len() * 8 == self.spec_layout().spec_total_bits(),
    {
        let fields = self.spec_layout().spec_fields();
        assert(width_sum(fields, i) + fields[i].spec_width() as nat == width_sum(fields, i + 1));
        lemma_width_sum_monotone(fields, i + 1, fields.len() as int);
        lemma_fundamental_div_mod(self.spec_layout().spec_total_bits() as int, 8);
    }

    /// Creates a zero-initialized instance of the given layout: the buffer
    /// holds `total_bits / 8` zero bytes and every field reads 0.
    pub fn new(layout: Layout) -> (r: PackedStruct)
        requires
            layout.wf(),
        ensures
            r.wf(),
            r.spec_layout() == layout,
            r.spec_data().len() == layout.spec_total_bits() / 8,
            forall|i: int|
                0 <= i < layout.spec_fields().len() ==> #[trigger] r.field_value(i) == 0,
    {
        let n = layout.byte_size();
        let mut data: Vec<u8> = Vec::new();
        while data.len() < n
            invariant
                data@.len() <= n,
                forall|k: int| 0 <= k < data@.len() ==> #[trigger] data@[k] == 0,
            decreases n - data.len(),
        {
            data.push(0u8);
        }
        let r = PackedStruct { layout, data };
        proof {
            assert forall|i: int| 0 <= i < r.spec_layout().spec_fields().len() implies #[trigger] r
                .field_value(i) == 0 by {
                r.lemma_buffer_covers(i);
                lemma_bits_value_zero(
                    r.spec_data(),
                    r.spec_layout().field_offset(i),
                    r.spec_layout().field_width(i) as nat,
                );
            }
        }
        r
    }

    /// The size of the instance in whole bytes: the sum of the field widths
    /// divided by 8.
    pub fn byte_size(&self) -> (r: usize)
        requires
            self.wf(),
        ensures
            r == self.spec_data().len(),
            r == self.spec_layout().spec_total_bits() / 8,
    {
        self.data.len()
    }

    /// The total size of the instance in bits.
    pub fn total_size(&self) -> (r: TotalSize)
        ensures
            r.bits == self.spec_layout().spec_total_bits(),
    {
        self.layout.total_size()
    }

    /// The raw bytes of the instance: the packed, byte-address-stable
    /// representation that the layout fixes.
    pub fn bytes(&self) -> (r: &Vec<u8>)
        ensures
            r@ == self.spec_data(),
    {
        &self.data
    }

    /// Reads the raw value of field `i`. Reading mutates nothing, so the
    /// result is the same on every call until a setter intervenes.
    pub fn get(&self, i: usize) -> (val: u64)
        requires
            self.wf(),
            i < self.spec_layout().spec_fields().len(),
        ensures
            val as nat == self.field_value(i as int),
            (val as nat) < pow2(self.spec_layout().field_width(i as int) as nat),
    {
        proof {
            self.lemma_buffer_covers(i as int);
        }
        let offset = self.layout.offset_of(i);
        let width = self.layout.width_of(i);
        get_bits(&self.data, offset, width as usize)
    }

    /// Writes the raw value of field `i`. The value must fit the field's
    /// width; every other field keeps its value, bit for bit, even where it
    /// shares a byte with field `i`.
    pub fn set(&mut self, i: usize, value: u64)
        requires
            old(self).wf(),
            i < old(self).spec_layout().spec_fields().len(),
            (value as nat) < pow2(old(self).spec_layout().field_width(i as int) as nat),
        ensures
            final(self).wf(),
            final(self).spec_layout() == old(self).spec_layout(),
            final(self).spec_data().len() == old(self).spec_data().len(),
            final(self).field_value(i as int) == value,
            forall|j: nat|
                j < old(self).spec_layout().field_width(i as int) ==> #[trigger] bit_at(
                    final(self).spec_data(),
                    (old(self).spec_layout().field_offset(i as int) + j) as nat,
                ) == crate::bitspec::value_bit(value, j),
            forall|j: int|
                0 <= j < old(self).spec_layout().spec_fields().len() && j != i
                    ==> #[trigger] final(self).field_value(j) == old(self).field_value(j),
    {
        proof {
            self.lemma_buffer_covers(i as int);
        }
        let offset = self.layout.offset_of(i);
        let width = self.layout.width_of(i);
        let ghost old_data = self.data@;
        set_bits(&mut self.data, offset, width as usize, value);
        proof {
            let fields = self.spec_layout().spec_fields();
            let start = self.spec_layout().field_offset(i as int);
            let w = self.spec_layout().field_width(i as int) as nat;
            assert forall|j: int|
                0 <= j < fields.len() && j != i implies #[trigger] self.field_value(j) == bits_value(
                old_data,
                self.spec_layout().field_offset(j),
                self.spec_layout().field_width(j) as nat,
            ) by {
                let start_j = self.spec_layout().field_offset(j);
                let w_j = self.spec_layout().field_width(j) as nat;
                // Field ranges are disjoint: prefix sums are monotone.
                if j < i {
                    assert(width_sum(fields, j) + fields[j].spec_width() as nat == width_sum(
                        fields,
                        j + 1,
                    ));
                    lemma_width_sum_monotone(fields, j + 1, i as int);
                } else {
                    assert(width_sum(fields, i as int) + fields[i as int].spec_width() as nat
                        == width_sum(fields, i as int + 1));
                    lemma_width_sum_monotone(fields, i as int + 1, j);
                }
                self.lemma_buffer_covers(j);
                assert forall|t: nat| t < w_j implies #[trigger] bit_at(
                    self.spec_data(),
                    (start_j + t) as nat,
                ) == bit_at(old_data, (start_j + t) as nat) by {
                    assert(start_j + t < old_data.len() * 8);
                    assert(!(start <= start_j + t < start + w));
                }
                lemma_bits_value_agree(self.spec_data(), old_data, start_j, w_j);
            }
        }
    }

    /// Decodes field `i` through its enum codec. Succeeds exactly when the
    /// stored pattern carries some variant's discriminant — always, for a
    /// positional codec — and otherwise returns the decode error with the
    /// type name, the raw stored value and the field's bit width.
    pub fn get_symbolic(&self, i: usize) -> (r: Result<usize, Error>)
        requires
            self.wf(),
            i < self.spec_layout().spec_fields().len(),
            self.spec_layout().spec_fields()[i as int].face is Symbolic,
        ensures
            ({
                let codec = self.spec_layout().spec_fields()[i as int].face->Symbolic_codec;
                &&& (r matches Ok(v) ==> v < codec.discriminants().len()
                    && codec.discriminants()[v as int] as nat == self.field_value(i as int))
                &&& (r matches Err(e) ==> {
                    &&& forall|j: int|
                        0 <= j < codec.discriminants().len()
                            ==> (#[trigger] codec.discriminants()[j]) as nat != self.field_value(
                            i as int,
                        )
                    &&& e.spec_typename() == codec.spec_typename()
                    &&& e.spec_value() as nat == self.field_value(i as int)
                    &&& e.spec_width() == codec.spec_bit_width()
                })
                &&& (codec.spec_mode() is Positional ==> r is Ok)
            }),
    {
        let raw = self.get(i);
        match self.layout.field_face(i) {
            Face::Symbolic { codec } => {
                let r = codec.decode(raw);
                proof {
                    if codec.spec_mode() is Positional {
                        assert(codec.discriminants()[raw as int] == raw);
                    }
                }
                r
            },
            Face::Integer { .. } => vstd::pervasive::unreached(),
        }
    }

    /// Encodes the variant with ordinal position `variant` into field `i`
    /// through its enum codec. Encoding always succeeds; every other field
    /// keeps its value.
    pub fn set_symbolic(&mut self, i: usize, variant: usize)
        requires
            old(self).wf(),
            i < old(self).spec_layout().spec_fields().len(),
            old(self).spec_layout().spec_fields()[i as int].face is Symbolic,
            variant < old(self).spec_layout().spec_fields()[i as int].face
                ->Symbolic_codec.discriminants().len(),
        ensures
            final(self).wf(),
            final(self).spec_layout() == old(self).spec_layout(),
            final(self).field_value(i as int) == old(self).spec_layout().spec_fields()[i as int]
                .face->Symbolic_codec.discriminants()[variant as int],
            forall|j: int|
                0 <= j < old(self).spec_layout().spec_fields().len() && j != i
                    ==> #[trigger] final(self).field_value(j) == old(self).field_value(j),
    {
        let raw = match self.layout.field_face(i) {
            Face::Symbolic { codec } => codec.encode(variant),
            Face::Integer { .. } => vstd::pervasive::unreached(),
        };
        self.set(i, raw);
    }
}

} // verus!
