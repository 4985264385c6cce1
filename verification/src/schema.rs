//! Definition-time schema errors. A violation is raised once, when a type is
//! defined, before any instance of it can exist.

use vstd::prelude::*;

verus! {

/// Why a type definition was rejected.
#[derive(Debug, PartialEq, Eq)]
pub enum SchemaError {
    /// The field bit widths do not sum to whole bytes; `remainder` is the
    /// offending remainder modulo 8.
    NotByteAligned { total_bits: usize, remainder: usize },
    /// A field carried an explicit width annotation that contradicts the
    /// actual width of its specifier.
    WidthMismatch { field: String, declared: u32, actual: u32 },
    /// A positional enum codec needs an exact power of two of variants.
    NonPowerOfTwoVariants { count: usize },
    /// An explicit discriminant does not fit in the declared bit width.
    DiscriminantOutOfRange { variant: String, discriminant: u64, bit_width: u32 },
    /// A bit width beyond 64 has no storage primitive.
    WidthTooLarge { name: String, width: u32 },
}

/// The declared-width check for one field: an explicit `expected` annotation
/// held against the `actual` width of the field's specifier.
#[derive(Debug, Clone, Copy, PartialEq, Eq, Structural)]
pub struct BitsCheck {
    pub expected: u32,
    pub actual: u32,
}

impl BitsCheck {
    /// The annotation is acceptable exactly when it names the actual width.
    pub fn ok(&self) -> (r: bool)
        ensures
            r == (self.expected == self.actual),
    {
        self.expected == self.actual
    }
}

} // verus!
