//! A packed bitfield engine: deterministic byte-level layouts for sequences of
//! named fields with arbitrary bit widths, bit-exact get/set accessors that
//! never touch bits outside a field's own range, an enum codec for symbolic
//! field values, and a definition-time schema validator.
//!
//! The crate also carries the verified cores of the surrounding tooling: the
//! compile-test harness model (manifests, output normalization, run
//! decisions), an order checker for identifier paths, a builder for command
//! descriptions, and simple numeric range bounds.

pub mod accessor;
pub mod bitspec;
pub mod bounds;
pub mod codec;
pub mod command;
pub mod error;
pub mod instance;
pub mod layout;
pub mod manifest;
pub mod normalize;
pub mod registry;
pub mod runner;
pub mod schema;
pub mod sorted;
pub mod term;

pub use bitspec::{bit_at, bits_value, value_bit};
