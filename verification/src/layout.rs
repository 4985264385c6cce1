//! The layout planner and schema validator.
//!
//! Fields are packed in declaration order with no padding: each field's bits
//! begin exactly where the previous field's ended, starting at bit 0 of byte
//! 0. Planning a layout validates the schema once, at definition time: every
//! width must have a storage primitive, every explicit width annotation must
//! agree with the field's actual width, and the total must fill whole bytes.

use vstd::prelude::*;

verus! {

use crate::codec::EnumCodec;
use crate::registry::storage_primitive_for;
use crate::schema::{BitsCheck, SchemaError};

/// The face of a field: the kind of value its accessors traffic in.
#[derive(Debug)]
pub enum Face {
    /// A plain unsigned integer of the given bit width.
    Integer { width: u32 },
    /// A symbolic value, encoded and decoded through an enum codec.
    Symbolic { codec: EnumCodec },
}

impl Face {
    /// How many bits a value of this face occupies.
    pub open spec fn spec_width(&self) -> u32 {
        match self {
            Face::Integer { width } => *width,
            Face::Symbolic { codec } => codec.spec_bit_width(),
        }
    }

    /// A symbolic face carries a well-formed codec; an integer face carries
    /// nothing further.
    pub open spec fn wf(&self) -> bool {
        match self {
            Face::Integer { .. } => true,
            Face::Symbolic { codec } => codec.wf(),
        }
    }

    /// The width in bits of this face.
    pub fn width(&self) -> (r: u32)
        ensures
            r == self.spec_width(),
    {
        match self {
            Face::Integer { width } => *width,
            Face::Symbolic { codec } => codec.bit_width(),
        }
    }
}

/// One field of a packed struct, as handed to the layout planner: a name, a
/// face, and an optional explicit width annotation to be checked against the
/// face's actual width.
#[derive(Debug)]
pub struct FieldSpec {
    pub name: String,
    pub face: Face,
    pub declared_width: Option<u32>,
}

impl FieldSpec {
    /// The width in bits of this field.
    pub open spec fn spec_width(&self) -> u32 {
        self.face.spec_width()
    }

    /// The per-field schema checks: a storage primitive exists for the
    /// width, and any explicit annotation names the actual width.
    pub open spec fn schema_ok(&self) -> bool {
        &&& self.spec_width() <= 64
        &&& match self.declared_width {
            Some(d) => d == self.spec_width(),
            None => true,
        }
    }
}

/// The total bit size of a packed struct, with its byte reading.
#[derive(Debug, Clone, Copy, PartialEq, Eq, Structural)]
pub struct TotalSize {
    pub bits: usize,
}

impl TotalSize {
    /// The size in whole bytes.
    pub fn bytes(&self) -> (r: usize)
        ensures
            r == self.bits / 8,
    {
        self.bits / 8
    }

    /// How many bits are left over beyond whole bytes.
    pub fn remainder(&self) -> (r: usize)
        ensures
            r == self.bits % 8,
    {
        self.bits % 8
    }

    /// Whether the size fills whole bytes exactly.
    pub fn is_whole_bytes(&self) -> (r: bool)
        ensures
            r == (self.bits % 8 == 0),
    {
        self.bits % 8 == 0
    }
}

/// The sum of the widths of the first `n` fields: the bit offset at which
/// field `n` begins.
pub open spec fn width_sum(fields: Seq<FieldSpec>, n: int) -> nat
    decreases n,
{
    if n <= 0 {
        0
    } else {
        width_sum(fields, n - 1) + fields[n - 1].spec_width() as nat
    }
}

/// The total bit width of all fields.
pub open spec fn total_width(fields: Seq<FieldSpec>) -> nat {
    width_sum(fields, fields.len() as int)
}

/// Width sums grow with the field index: the offset of a later field lies
/// at or beyond the end of any earlier one.
pub proof fn lemma_width_sum_monotone(fields: Seq<FieldSpec>, i: int, j: int)
    requires
        0 <= i <= j,
    ensures
        width_sum(fields, i) <= width_sum(fields, j),
    decreases j - i,
{
    if i < j {
        lemma_width_sum_monotone(fields, i, j - 1);
    }
}

/// The least index of a field that fails its per-field schema checks,
/// assuming one exists.
pub open spec fn first_bad_field(fields: Seq<FieldSpec>) -> int
    decreases fields.len(),
{
    if fields.len() == 0 {
        0
    } else if !fields[0].schema_ok() {
        0
    } else {
        1 + first_bad_field(fields.drop_first())
    }
}

/// A failing field at position `i`, with none before it, is the first.
proof fn lemma_first_bad_field_stops(fields: Seq<FieldSpec>, i: int)
    requires
        0 <= i < fields.len(),
        forall|j: int| 0 <= j < i ==> (#[trigger] fields[j]).schema_ok(),
        !fields[i].schema_ok(),
    ensures
        first_bad_field(fields) == i,
    decreases i,
{
    if i > 0 {
        assert(fields[0].schema_ok());
        assert forall|j: int| 0 <= j < i - 1 implies (#[trigger] fields.drop_first()[j]).schema_ok()
            by {
            assert(fields.drop_first()[j] == fields[j + 1]);
        }
        assert(fields.drop_first()[i - 1] == fields[i]);
        lemma_first_bad_field_stops(fields.drop_first(), i - 1);
    }
}

/// A validated layout: each field's starting bit offset and the whole-byte
/// total size, computed in one left-to-right pass over the fields.
#[derive(Debug)]
pub struct Layout {
    fields: Vec<FieldSpec>,
    offsets: Vec<usize>,
    total_bits: usize,
}

impl Layout {
    /// The fields, in declaration order.
    pub closed spec fn spec_fields(&self) -> Seq<FieldSpec> {
        self.fields@
    }

    /// The starting bit offset of each field.
    pub closed spec fn spec_offsets(&self) -> Seq<usize> {
        self.offsets@
    }

    /// The total size in bits.
    pub closed spec fn spec_total_bits(&self) -> usize {
        self.total_bits
    }

    /// The width in bits of field `i`.
    pub open spec fn field_width(&self, i: int) -> u32 {
        self.spec_fields()[i].spec_width()
    }

    /// The starting bit offset of field `i`.
    pub open spec fn field_offset(&self, i: int) -> nat {
        width_sum(self.spec_fields(), i)
    }

    /// The layout invariant: offsets are the running width sums, the total
    /// is their grand sum and fills whole bytes, and every field passed its
    /// schema checks with a well-formed codec.
    pub open spec fn wf(&self) -> bool {
        &&& self.spec_offsets().len() == self.spec_fields().len()
        &&& forall|i: int|
            0 <= i < self.spec_fields().len() ==> (#[trigger] self.spec_offsets()[i]) as nat
                == width_sum(self.spec_fields(), i)
        &&& self.spec_total_bits() as nat == total_width(self.spec_fields())
        &&& self.spec_total_bits() % 8 == 0
        &&& forall|i: int|
            0 <= i < self.spec_fields().len() ==> (#[trigger] self.spec_fields()[i]).schema_ok()
        &&& forall|i: int|
            0 <= i < self.spec_fields().len() ==> (#[trigger] self.spec_fields()[i]).face.wf()
    }

    /// Plans and validates a layout: computes each field's starting offset
    /// as the running sum of the preceding widths, and accepts exactly when
    /// every field passes its schema checks and the total fills whole bytes.
    /// A rejection names the first offense: a width with no storage
    /// primitive, an annotation that contradicts the actual width, or the
    /// remainder the total leaves beyond whole bytes.
    pub fn new(fields: Vec<FieldSpec>) -> (r: Result<Layout, SchemaError>)
        requires
            forall|i: int| 0 <= i < fields@.len() ==> (#[trigger] fields@[i]).face.wf(),
            total_width(fields@) <= usize::MAX,
        ensures
            r is Ok <==> (forall|i: int| 0 <= i < fields@.len() ==> (#[trigger] fields@[i]).schema_ok())
                && total_width(fields@) % 8 == 0,
            r matches Ok(l) ==> l.wf() && l.spec_fields() == fields@,
            r is Err && !(forall|i: int|
                0 <= i < fields@.len() ==> (#[trigger] fields@[i]).schema_ok()) ==> {
                let b = first_bad_field(fields@);
                &&& 0 <= b < fields@.len()
                &&& fields@[b].spec_width() > 64 ==> (r matches Err(e) && e
                    == (SchemaError::WidthTooLarge {
                    name: fields@[b].name,
                    width: fields@[b].spec_width(),
                }))
                &&& fields@[b].spec_width() <= 64 ==> (r matches Err(e) && e
                    == (SchemaError::WidthMismatch {
                    field: fields@[b].name,
                    declared: fields@[b].declared_width->Some_0,
                    actual: fields@[b].spec_width(),
                }))
            },
            r is Err && (forall|i: int|
                0 <= i < fields@.len() ==> (#[trigger] fields@[i]).schema_ok()) ==> (r matches Err(
                e,
            ) && e == (SchemaError::NotByteAligned {
                total_bits: total_width(fields@) as usize,
                remainder: (total_width(fields@) % 8) as usize,
            })),
    {
        let count = fields.len();
        let mut offsets: Vec<usize> = Vec::new();
        let mut total: usize = 0;
        let mut i: usize = 0;
        while i < count
            invariant
                i <= count,
                count == fields@.len(),
                offsets@.len() == i,
                total_width(fields@) <= usize::MAX,
                total as nat == width_sum(fields@, i as int),
                forall|j: int|
                    0 <= j < i ==> (#[trigger] offsets@[j]) as nat == width_sum(fields@, j),
                forall|j: int| 0 <= j < i ==> (#[trigger] fields@[j]).schema_ok(),
            decreases count - i,
        {
            let w = fields[i].face.width();
            if storage_primitive_for(w).is_none() {
                let name = fields[i].name.clone();
                proof {
                    lemma_first_bad_field_stops(fields@, i as int);
                }
                return Err(SchemaError::WidthTooLarge { name, width: w });
            }
            match fields[i].declared_width {
                Some(declared) => {
                    let check = BitsCheck { expected: declared, actual: w };
                    if !check.ok() {
                        let name = fields[i].name.clone();
                        proof {
                            lemma_first_bad_field_stops(fields@, i as int);
                        }
                        return Err(SchemaError::WidthMismatch {
                            field: name,
                            declared,
                            actual: w,
                        });
                    }
                },
                None => {},
            }
            offsets.push(total);
            proof {
                lemma_width_sum_monotone(fields@, i as int + 1, fields@.len() as int);
            }
            total = total + w as usize;
            i = i + 1;
        }
        if total % 8 != 0 {
            return Err(SchemaError::NotByteAligned { total_bits: total, remainder: total % 8 });
        }
        Ok(Layout { fields, offsets, total_bits: total })
    }

    /// How many fields the layout has.
    pub fn field_count(&self) -> (r: usize)
        ensures
            r == self.spec_fields().len(),
    {
        self.fields.len()
    }

    /// The width in bits of field `i`.
    pub fn width_of(&self, i: usize) -> (r: u32)
        requires
            i < self.spec_fields().len(),
        ensures
            r == self.field_width(i as int),
    {
        self.fields[i].face.width()
    }

    /// The starting bit offset of field `i`.
    pub fn offset_of(&self, i: usize) -> (r: usize)
        requires
            self.wf(),
            i < self.spec_fields().len(),
        ensures
            r as nat == self.field_offset(i as int),
    {
        self.offsets[i]
    }

    /// The face of field `i`.
    pub fn field_face(&self, i: usize) -> (r: &Face)
        requires
            i < self.spec_fields().len(),
        ensures
            *r == self.spec_fields()[i as int].face,
    {
        &self.fields[i].face
    }

    /// The total size of the layout, in bits.
    pub fn total_size(&self) -> (r: TotalSize)
        ensures
            r.bits == self.spec_total_bits(),
    {
        TotalSize { bits: self.total_bits }
    }

    /// The size in whole bytes: the sum of the field widths divided by 8.
    pub fn byte_size(&self) -> (r: usize)
        ensures
            r == self.spec_total_bits() / 8,
    {
        self.total_bits / 8
    }
}

} // verus!
