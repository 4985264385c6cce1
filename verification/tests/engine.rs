use bitfield::accessor::{get_bits, set_bits};
use bitfield::codec::EnumCodec;
use bitfield::error::Error;
use bitfield::instance::PackedStruct;
use bitfield::layout::{Face, FieldSpec, Layout, TotalSize};
use bitfield::registry::{storage_primitive_for, Bits, FromBits, IntoBits, PopBits, PushBits};
use bitfield::schema::{BitsCheck, SchemaError};

fn int_field(name: &str, width: u32) -> FieldSpec {
    FieldSpec { name: name.to_string(), face: Face::Integer { width }, declared_width: None }
}

fn four_byte_layout() -> Layout {
    // a:9 bits, b:6 bits, c:13 bits, d:4 bits; 32 bits in all.
    Layout::new(vec![
        int_field("a", 9),
        int_field("b", 6),
        int_field("c", 13),
        int_field("d", 4),
    ])
    .unwrap()
}

#[test]
fn storage_primitive_thresholds() {
    assert_eq!(storage_primitive_for(1), Some(8));
    assert_eq!(storage_primitive_for(8), Some(8));
    assert_eq!(storage_primitive_for(9), Some(16));
    assert_eq!(storage_primitive_for(16), Some(16));
    assert_eq!(storage_primitive_for(17), Some(32));
    assert_eq!(storage_primitive_for(32), Some(32));
    assert_eq!(storage_primitive_for(33), Some(64));
    assert_eq!(storage_primitive_for(64), Some(64));
    assert_eq!(storage_primitive_for(65), None);
}

#[test]
fn push_and_pop_bits() {
    let mut acc8: u8 = 0;
    acc8.push_bits(4, 0b1010);
    acc8.push_bits(4, 0b0110);
    assert_eq!(acc8, 0b1010_0110);
    assert_eq!(acc8.pop_bits(4), 0b0110);
    assert_eq!(acc8, 0b1010);

    let mut acc16: u16 = 0;
    acc16.push_bits(8, 0xab);
    acc16.push_bits(8, 0xcd);
    assert_eq!(acc16, 0xabcd);
    assert_eq!(acc16.pop_bits(8), 0xcd);
    assert_eq!(acc16, 0xab);

    let mut acc32: u32 = 0x12;
    acc32.push_bits(8, 0x34);
    assert_eq!(acc32, 0x1234);
    assert_eq!(acc32.pop_bits(4), 0x4);
    assert_eq!(acc32, 0x123);

    let mut acc64: u64 = 0;
    acc64.push_bits(3, 0b101);
    acc64.push_bits(5, 0b11011);
    assert_eq!(acc64, 0b101_11011);
    assert_eq!(acc64.pop_bits(5), 0b11011);
    assert_eq!(acc64, 0b101);

    // Only the low `amount` bits of the pushed byte are taken.
    let mut masked: u16 = 0;
    masked.push_bits(2, 0xff);
    assert_eq!(masked, 0b11);
}

#[test]
fn widest_and_empty_layouts() {
    let layout = Layout::new(vec![int_field("all", 64)]).unwrap();
    let mut bf = PackedStruct::new(layout);
    assert_eq!(bf.byte_size(), 8);
    bf.set(0, u64::MAX);
    assert_eq!(bf.get(0), u64::MAX);
    bf.set(0, 0x0123_4567_89ab_cdef);
    assert_eq!(bf.get(0), 0x0123_4567_89ab_cdef);
    assert_eq!(bf.bytes(), &vec![0xef, 0xcd, 0xab, 0x89, 0x67, 0x45, 0x23, 0x01]);

    let empty = Layout::new(vec![]).unwrap();
    let bf0 = PackedStruct::new(empty);
    assert_eq!(bf0.byte_size(), 0);
}

#[test]
fn decode_error_rendering() {
    // Padded to the field width.
    let padded = Error::new("Mode".to_string(), 1, 4);
    assert_eq!(padded.message(), "unrecognized bit pattern for enum Mode: 0b0001");
    // A value wider than the field shows all of its digits.
    let wide = Error::new("Mode".to_string(), 9, 2);
    assert_eq!(wide.message(), "unrecognized bit pattern for enum Mode: 0b1001");
    // The widest field: sixty-four digits.
    let full = Error::new("Wide".to_string(), u64::MAX, 64);
    let mut expect = "unrecognized bit pattern for enum Wide: 0b".to_string();
    for _ in 0..64 {
        expect.push('1');
    }
    assert_eq!(full.message(), expect);
    // Zero still shows one digit.
    let zero = Error::new("Mode".to_string(), 0, 0);
    assert_eq!(zero.message(), "unrecognized bit pattern for enum Mode: 0b0");
    assert_eq!(zero.typename(), "Mode");
    assert_eq!(zero.width(), 0);
}

#[test]
fn bits_conversions() {
    assert_eq!(Bits(0x1234u64).into_raw(), 0x1234u64);
    assert_eq!(true.into_bits().into_raw(), 1u8);
    assert_eq!(false.into_bits().into_raw(), 0u8);
    assert!(bool::from_bits(Bits(1u8)));
    assert!(!bool::from_bits(Bits(0u8)));
    assert_eq!(u16::from_bits(7u16.into_bits()), 7u16);
}

#[test]
fn raw_bit_accessors() {
    let mut data = vec![0u8; 4];
    // A 13-bit field starting at bit 9: spans bytes 1 and 2.
    set_bits(&mut data, 9, 13, 0x1675);
    assert_eq!(get_bits(&data, 9, 13), 0x1675);
    // Neighbouring bits stayed clear.
    assert_eq!(get_bits(&data, 0, 9), 0);
    assert_eq!(get_bits(&data, 22, 10), 0);
}

// The four-byte scenario: set every field, read every field back exactly.
#[test]
fn complex_bytes_accessors() {
    let mut bf = PackedStruct::new(four_byte_layout());
    assert_eq!(bf.byte_size(), 4);

    let a = 0b1100_0011_1;
    let b = 0b101_010;
    let c = 0x1675;
    let d = 0b1110;

    bf.set(0, a);
    bf.set(1, b);
    bf.set(2, c);
    bf.set(3, d);

    assert_eq!(bf.get(0), a);
    assert_eq!(bf.get(1), b);
    assert_eq!(bf.get(2), c);
    assert_eq!(bf.get(3), d);
    assert_eq!(bf.get(1), 42);
    assert_eq!(bf.get(2), 5749);
    assert_eq!(bf.get(3), 14);
}

// A fresh instance reads zero everywhere; setting one field leaves the
// others at zero.
#[test]
fn fresh_and_single_set() {
    // a:1, b:3, c:4, d:24; 32 bits in all.
    let layout = Layout::new(vec![
        int_field("a", 1),
        int_field("b", 3),
        int_field("c", 4),
        int_field("d", 24),
    ])
    .unwrap();
    let mut bf = PackedStruct::new(layout);
    assert_eq!(bf.byte_size(), 4);
    assert_eq!(bf.get(0), 0);
    assert_eq!(bf.get(1), 0);
    assert_eq!(bf.get(2), 0);
    assert_eq!(bf.get(3), 0);

    bf.set(2, 14);
    assert_eq!(bf.get(0), 0);
    assert_eq!(bf.get(1), 0);
    assert_eq!(bf.get(2), 14);
    assert_eq!(bf.get(3), 0);
}

#[test]
fn round_trip_all_fields() {
    let mut bf = PackedStruct::new(four_byte_layout());
    let widths = [9u32, 6, 13, 4];
    for (i, w) in widths.iter().enumerate() {
        let top = 1u64 << w;
        let mut v = 0u64;
        while v < top {
            bf.set(i, v);
            assert_eq!(bf.get(i), v);
            v += if top > 64 { top / 64 + 1 } else { 1 };
        }
        bf.set(i, top - 1);
        assert_eq!(bf.get(i), top - 1);
    }
}

#[test]
fn setting_one_field_preserves_the_rest() {
    let mut bf = PackedStruct::new(four_byte_layout());
    bf.set(0, 391);
    bf.set(1, 42);
    bf.set(2, 5749);
    bf.set(3, 14);
    // Overwrite each field in turn and check the others are untouched.
    bf.set(1, 0b010_101);
    assert_eq!(bf.get(0), 391);
    assert_eq!(bf.get(2), 5749);
    assert_eq!(bf.get(3), 14);
    bf.set(0, 0);
    assert_eq!(bf.get(1), 0b010_101);
    assert_eq!(bf.get(2), 5749);
    assert_eq!(bf.get(3), 14);
}

#[test]
fn repeated_reads_are_stable() {
    let mut bf = PackedStruct::new(four_byte_layout());
    bf.set(2, 1234);
    let first = bf.get(2);
    let second = bf.get(2);
    let third = bf.get(2);
    assert_eq!(first, 1234);
    assert_eq!(second, 1234);
    assert_eq!(third, 1234);
}

#[test]
fn wire_layout_is_lsb_first() {
    // One 4-bit field then a 12-bit field: the first field occupies the low
    // nibble of byte 0.
    let layout = Layout::new(vec![int_field("lo", 4), int_field("hi", 12)]).unwrap();
    let mut bf = PackedStruct::new(layout);
    bf.set(0, 0xf);
    assert_eq!(bf.bytes(), &vec![0x0f, 0x00]);
    bf.set(1, 0xabc);
    assert_eq!(bf.bytes(), &vec![0xcf, 0xab]);
    assert_eq!(bf.total_size(), TotalSize { bits: 16 });
}

// Definition fails when the widths do not fill whole bytes, naming the
// one leftover bit.
#[test]
fn rejects_non_byte_multiple() {
    let r = Layout::new(vec![int_field("a", 24), int_field("b", 9)]);
    assert_eq!(
        r.unwrap_err(),
        SchemaError::NotByteAligned { total_bits: 33, remainder: 1 }
    );
}

#[test]
fn rejects_overwide_field() {
    let r = Layout::new(vec![int_field("big", 65), int_field("pad", 7)]);
    assert_eq!(
        r.unwrap_err(),
        SchemaError::WidthTooLarge { name: "big".to_string(), width: 65 }
    );
}

#[test]
fn bits_attribute_checked() {
    assert!(BitsCheck { expected: 3, actual: 3 }.ok());
    assert!(!BitsCheck { expected: 2, actual: 3 }.ok());

    let ok = Layout::new(vec![FieldSpec {
        name: "trigger_mode".to_string(),
        face: Face::Integer { width: 1 },
        declared_width: Some(1),
    },
    int_field("reserved", 7)]);
    assert!(ok.is_ok());

    let bad = Layout::new(vec![FieldSpec {
        name: "delivery_mode".to_string(),
        face: Face::Integer { width: 3 },
        declared_width: Some(4),
    },
    int_field("reserved", 5)]);
    assert_eq!(
        bad.unwrap_err(),
        SchemaError::WidthMismatch { field: "delivery_mode".to_string(), declared: 4, actual: 3 }
    );
}

fn names(list: &[&str]) -> Vec<String> {
    list.iter().map(|n| n.to_string()).collect()
}

#[test]
fn positional_enum_codec() {
    let codec = EnumCodec::positional(
        "DeliveryMode".to_string(),
        names(&["Fixed", "Lowest", "SMI", "RemoteRead", "NMI", "Init", "Startup", "External"]),
    )
    .unwrap();
    assert_eq!(codec.bit_width(), 3);
    assert_eq!(codec.variant_count(), 8);
    assert_eq!(codec.encode(5), 5);
    assert_eq!(codec.decode(2).unwrap(), 2);
}

#[test]
fn rejects_non_power_of_two_variants() {
    let r = EnumCodec::positional("Three".to_string(), names(&["A", "B", "C"]));
    assert_eq!(r.unwrap_err(), SchemaError::NonPowerOfTwoVariants { count: 3 });
}

#[test]
fn rejects_discriminant_out_of_range() {
    let r = EnumCodec::explicit(
        "TwoBits".to_string(),
        2,
        vec![("Zero".to_string(), 0), ("Four".to_string(), 4)],
    );
    assert_eq!(
        r.unwrap_err(),
        SchemaError::DiscriminantOutOfRange {
            variant: "Four".to_string(),
            discriminant: 4,
            bit_width: 2
        }
    );
}

#[test]
fn rejects_overwide_enum() {
    let r = EnumCodec::explicit("Wide".to_string(), 65, vec![("Only".to_string(), 0)]);
    assert_eq!(
        r.unwrap_err(),
        SchemaError::WidthTooLarge { name: "Wide".to_string(), width: 65 }
    );
}

fn small_prime_codec() -> EnumCodec {
    EnumCodec::explicit(
        "SmallPrime".to_string(),
        4,
        vec![
            ("Two".to_string(), 0b0010),
            ("Three".to_string(), 0b0011),
            ("Five".to_string(), 0b0101),
            ("Seven".to_string(), 0b0111),
            ("Eleven".to_string(), 0b1011),
            ("Thirteen".to_string(), 0b1101),
        ],
    )
    .unwrap()
}

// An explicit-discriminant codec maps only 6 of the 16 patterns of its 4
// bits: decoding an unmapped pattern reports that pattern and the width.
#[test]
fn unmapped_pattern_is_a_decode_error() {
    let codec = small_prime_codec();
    let err = codec.decode(0b0000).unwrap_err();
    assert_eq!(err.raw_value(), 0);
    assert_eq!(err.width(), 4);
    assert_eq!(err.typename(), "SmallPrime");
    let err9 = codec.decode(0b1001).unwrap_err();
    assert_eq!(err9.raw_value(), 0b1001);
    assert_eq!(
        err9.message(),
        "unrecognized bit pattern for enum SmallPrime: 0b1001"
    );
    assert_eq!(codec.decode(0b0111).unwrap(), 3);
    assert_eq!(codec.encode(4), 0b1011);
}

#[test]
fn symbolic_fields_in_a_struct() {
    // acknowledged:1, trigger_mode:1 (2 variants), delivery_mode:3
    // (8 variants), reserved:3; one byte in all.
    let trigger = EnumCodec::positional(
        "TriggerMode".to_string(),
        names(&["Edge", "Level"]),
    )
    .unwrap();
    let delivery = EnumCodec::positional(
        "DeliveryMode".to_string(),
        names(&["Fixed", "Lowest", "SMI", "RemoteRead", "NMI", "Init", "Startup", "External"]),
    )
    .unwrap();
    let layout = Layout::new(vec![
        int_field("acknowledged", 1),
        FieldSpec {
            name: "trigger_mode".to_string(),
            face: Face::Symbolic { codec: trigger },
            declared_width: Some(1),
        },
        FieldSpec {
            name: "delivery_mode".to_string(),
            face: Face::Symbolic { codec: delivery },
            declared_width: Some(3),
        },
        int_field("reserved", 3),
    ])
    .unwrap();
    let mut entry = PackedStruct::new(layout);
    assert_eq!(entry.byte_size(), 1);

    // Freshly constructed: everything decodes to the zero pattern.
    assert_eq!(entry.get(0), 0);
    assert_eq!(entry.get_symbolic(1).unwrap(), 0); // Edge
    assert_eq!(entry.get_symbolic(2).unwrap(), 0); // Fixed

    entry.set(0, 1);
    entry.set_symbolic(2, 2); // SMI
    assert_eq!(entry.get(0), 1);
    assert_eq!(entry.get_symbolic(1).unwrap(), 0); // still Edge
    assert_eq!(entry.get_symbolic(2).unwrap(), 2); // SMI
}

// A stored pattern of an explicit codec that maps nothing surfaces as a
// decode error carrying the raw value, through the instance accessor too.
#[test]
fn instance_decode_error() {
    let layout = Layout::new(vec![
        FieldSpec {
            name: "small_prime".to_string(),
            face: Face::Symbolic { codec: small_prime_codec() },
            declared_width: None,
        },
        int_field("pad", 4),
    ])
    .unwrap();
    let mut bf = PackedStruct::new(layout);
    // Fresh storage holds 0b0000, which no prime maps to.
    let err = bf.get_symbolic(0).unwrap_err();
    assert_eq!(err.raw_value(), 0);
    assert_eq!(err.width(), 4);

    bf.set_symbolic(0, 3); // Seven = 0b0111
    assert_eq!(bf.get_symbolic(0).unwrap(), 3);
    assert_eq!(bf.get(0), 0b0111);
}
