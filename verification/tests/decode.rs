use hdf5_scan::bytes::ByteOrder;
use hdf5_scan::chunk::{DataChunk, Value};
use hdf5_scan::decode::{can_decode, columns_suffice, fill};
use hdf5_scan::descriptor::{
    CompoundField, CompoundType, EnumType, FloatSize, IntSize, TypeDescriptor,
};

const LE: ByteOrder = ByteOrder::LittleEndian;
const BE: ByteOrder = ByteOrder::BigEndian;

fn field(name: &str, ty: TypeDescriptor, offset: usize) -> CompoundField {
    CompoundField { name: name.to_string(), ty, offset }
}

fn compound(fields: Vec<CompoundField>, size: usize) -> TypeDescriptor {
    TypeDescriptor::Compound(CompoundType { fields, size })
}

fn decode_one(dtype: &TypeDescriptor, bytes: &[u8], heap: &[u8], order: ByteOrder) -> Value {
    assert!(dtype.is_well_formed());
    assert!(can_decode(dtype, bytes, heap.len(), order));
    let mut chunk = DataChunk::new(1, 1);
    assert!(columns_suffice(dtype, 0, chunk.num_columns()));
    fill(dtype, bytes, heap, order, &mut chunk, 0, 0);
    chunk.get(0, 0).clone()
}

fn header(count: u64, locator: u64, order: ByteOrder) -> Vec<u8> {
    let mut bytes = Vec::new();
    match order {
        ByteOrder::LittleEndian => {
            bytes.extend_from_slice(&count.to_le_bytes());
            bytes.extend_from_slice(&locator.to_le_bytes());
        }
        ByteOrder::BigEndian => {
            bytes.extend_from_slice(&count.to_be_bytes());
            bytes.extend_from_slice(&locator.to_be_bytes());
        }
    }
    bytes
}

fn text_header(count: u32, locator: u32, order: ByteOrder) -> Vec<u8> {
    let mut bytes = Vec::new();
    match order {
        ByteOrder::LittleEndian => {
            bytes.extend_from_slice(&count.to_le_bytes());
            bytes.extend_from_slice(&locator.to_le_bytes());
        }
        ByteOrder::BigEndian => {
            bytes.extend_from_slice(&count.to_be_bytes());
            bytes.extend_from_slice(&locator.to_be_bytes());
        }
    }
    bytes
}

#[test]
fn signed_integers_of_each_width() {
    let i = TypeDescriptor::Integer;
    assert_eq!(decode_one(&i(IntSize::U1), &[0xfe], &[], LE), Value::Int8(-2));
    assert_eq!(decode_one(&i(IntSize::U2), &[0xfe, 0xff], &[], LE), Value::Int16(-2));
    assert_eq!(
        decode_one(&i(IntSize::U4), &[0xfe, 0xff, 0xff, 0xff], &[], LE),
        Value::Int32(-2)
    );
    assert_eq!(decode_one(&i(IntSize::U8), &[0xff; 8], &[], LE), Value::Int64(-1));
    assert_eq!(decode_one(&i(IntSize::U4), &[0, 0, 1, 2], &[], BE), Value::Int32(258));
}

#[test]
fn unsigned_integers_of_each_width() {
    let u = TypeDescriptor::Unsigned;
    assert_eq!(decode_one(&u(IntSize::U1), &[0xfe], &[], LE), Value::UInt8(254));
    assert_eq!(decode_one(&u(IntSize::U2), &[0xfe, 0xff], &[], LE), Value::UInt16(65534));
    assert_eq!(
        decode_one(&u(IntSize::U4), &[0x78, 0x56, 0x34, 0x12], &[], LE),
        Value::UInt32(0x1234_5678)
    );
    assert_eq!(
        decode_one(&u(IntSize::U4), &[0x78, 0x56, 0x34, 0x12], &[], BE),
        Value::UInt32(0x7856_3412)
    );
    assert_eq!(decode_one(&u(IntSize::U8), &[0xff; 8], &[], BE), Value::UInt64(u64::MAX));
}

#[test]
fn floats_keep_their_bit_pattern() {
    let single = decode_one(&TypeDescriptor::Float(FloatSize::U4), &1.5f32.to_le_bytes(), &[], LE);
    assert_eq!(single, Value::Float32(1.5f32.to_bits()));
    let double =
        decode_one(&TypeDescriptor::Float(FloatSize::U8), &(-0.25f64).to_be_bytes(), &[], BE);
    assert_eq!(double, Value::Float64((-0.25f64).to_bits()));
    match double {
        Value::Float64(bits) => assert_eq!(f64::from_bits(bits), -0.25),
        other => panic!("not a double: {:?}", other),
    }
}

#[test]
fn boolean_is_true_for_any_byte_but_zero() {
    assert_eq!(decode_one(&TypeDescriptor::Boolean, &[0], &[], LE), Value::Boolean(false));
    assert_eq!(decode_one(&TypeDescriptor::Boolean, &[1], &[], LE), Value::Boolean(true));
    assert_eq!(decode_one(&TypeDescriptor::Boolean, &[0x80], &[], BE), Value::Boolean(true));
}

#[test]
fn enum_decodes_as_its_base() {
    let signed = TypeDescriptor::Enum(EnumType { size: IntSize::U2, signed: true });
    let unsigned = TypeDescriptor::Enum(EnumType { size: IntSize::U2, signed: false });
    assert_eq!(decode_one(&signed, &[0xff, 0xff], &[], LE), Value::Int16(-1));
    assert_eq!(decode_one(&unsigned, &[0xff, 0xff], &[], LE), Value::UInt16(65535));
}

#[test]
fn fixed_array_is_the_span_of_its_elements() {
    let dtype = TypeDescriptor::FixedArray(Box::new(TypeDescriptor::Integer(IntSize::U2)), 3);
    let bytes = [1u8, 0, 2, 0, 3, 0, 99, 99];
    assert_eq!(decode_one(&dtype, &bytes, &[], LE), Value::Array(vec![1, 0, 2, 0, 3, 0]));
    let empty = TypeDescriptor::FixedArray(Box::new(TypeDescriptor::Integer(IntSize::U2)), 0);
    assert_eq!(decode_one(&empty, &bytes, &[], LE), Value::Array(vec![]));
}

#[test]
fn fixed_text_is_its_capacity_in_bytes() {
    let bytes = b"hello world";
    assert_eq!(
        decode_one(&TypeDescriptor::FixedAscii(5), bytes, &[], LE),
        Value::Text(b"hello".to_vec())
    );
    assert_eq!(
        decode_one(&TypeDescriptor::FixedUnicode(11), bytes, &[], BE),
        Value::Text(b"hello world".to_vec())
    );
}

#[test]
fn reference_is_copied_as_it_is() {
    let bytes = [9u8, 8, 7, 6, 5, 4, 3, 2, 1, 0];
    assert_eq!(
        decode_one(&TypeDescriptor::Reference(8), &bytes, &[], LE),
        Value::Blob(vec![9, 8, 7, 6, 5, 4, 3, 2])
    );
}

#[test]
fn variable_length_text_ends_at_its_declared_length() {
    let heap = b"hello, and more that does not belong to it";
    let record = text_header(5, 0, LE);
    assert_eq!(record.len(), 8);
    assert_eq!(
        decode_one(&TypeDescriptor::VarLenAscii, &record, heap, LE),
        Value::Text(b"hello".to_vec())
    );
    let mut longer = record.clone();
    longer.extend_from_slice(&[0xaa; 7]);
    assert_eq!(
        decode_one(&TypeDescriptor::VarLenUnicode, &longer, heap, LE),
        Value::Text(b"hello".to_vec())
    );
}

#[test]
fn variable_length_payload_is_found_through_the_locator() {
    let heap = b"xyzhello world";
    assert_eq!(
        decode_one(&TypeDescriptor::VarLenAscii, &text_header(5, 3, LE), heap, LE),
        Value::Text(b"hello".to_vec())
    );
    assert_eq!(
        decode_one(&TypeDescriptor::VarLenAscii, &text_header(5, 9, BE), heap, BE),
        Value::Text(b"world".to_vec())
    );
    assert_eq!(
        decode_one(&TypeDescriptor::VarLenAscii, &text_header(0, 14, LE), heap, LE),
        Value::Text(vec![])
    );
}

#[test]
fn variable_length_array_counts_elements() {
    let dtype = TypeDescriptor::VarLenArray(Box::new(TypeDescriptor::Unsigned(IntSize::U4)));
    let heap = [0u8, 1, 2, 3, 4, 5, 6, 7, 8, 9, 10, 11];
    assert_eq!(
        decode_one(&dtype, &header(2, 4, LE), &heap, LE),
        Value::List(vec![4, 5, 6, 7, 8, 9, 10, 11])
    );
    assert_eq!(decode_one(&dtype, &header(0, 0, LE), &heap, LE), Value::List(vec![]));
}

#[test]
fn payload_beyond_the_heap_cannot_be_decoded() {
    let heap = [0u8; 12];
    let list = TypeDescriptor::VarLenArray(Box::new(TypeDescriptor::Unsigned(IntSize::U4)));
    assert!(can_decode(&list, &header(3, 0, LE), heap.len(), LE));
    assert!(!can_decode(&list, &header(3, 1, LE), heap.len(), LE));
    assert!(!can_decode(&list, &header(4, 0, LE), heap.len(), LE));
    assert!(!can_decode(&list, &header(u64::MAX, 0, LE), heap.len(), LE));
    assert!(!can_decode(&list, &header(1, u64::MAX, LE), heap.len(), LE));
    let text = TypeDescriptor::VarLenAscii;
    assert!(can_decode(&text, &text_header(12, 0, LE), heap.len(), LE));
    assert!(!can_decode(&text, &text_header(13, 0, LE), heap.len(), LE));
    assert!(!can_decode(&text, &text_header(u32::MAX, u32::MAX, LE), heap.len(), LE));
    assert!(can_decode(&text, &text_header(12, 0, BE), heap.len(), BE));
    assert!(!can_decode(&text, &text_header(12, 0, LE), heap.len(), BE));
}

#[test]
fn too_few_bytes_cannot_be_decoded() {
    assert!(!can_decode(&TypeDescriptor::Integer(IntSize::U4), &[0; 3], 0, LE));
    assert!(can_decode(&TypeDescriptor::Integer(IntSize::U4), &[0; 4], 0, LE));
    assert!(!can_decode(&TypeDescriptor::Boolean, &[], 0, LE));
    assert!(!can_decode(&TypeDescriptor::VarLenAscii, &[0; 7], 100, LE));
    assert!(can_decode(&TypeDescriptor::VarLenAscii, &[0; 8], 100, LE));
    let list = TypeDescriptor::VarLenArray(Box::new(TypeDescriptor::Boolean));
    assert!(!can_decode(&list, &[0; 15], 100, LE));
    assert!(can_decode(&list, &[0; 16], 100, LE));
    assert!(!can_decode(&TypeDescriptor::FixedAscii(5), b"hell", 0, LE));
    let record = compound(vec![field("a", TypeDescriptor::Boolean, 0)], 4);
    assert!(!can_decode(&record, &[1, 0, 0], 0, LE));
    assert!(can_decode(&record, &[1, 0, 0, 0], 0, LE));
}

#[test]
fn payload_of_a_field_is_checked_at_the_field() {
    let record = compound(
        vec![
            field("n", TypeDescriptor::Unsigned(IntSize::U1), 0),
            field("s", TypeDescriptor::VarLenAscii, 8),
        ],
        16,
    );
    let mut bytes = vec![7u8, 0, 0, 0, 0, 0, 0, 0];
    bytes.extend_from_slice(&text_header(4, 2, LE));
    assert!(can_decode(&record, &bytes, 6, LE));
    assert!(!can_decode(&record, &bytes, 5, LE));
}

#[test]
fn compound_reads_each_field_at_its_own_offset() {
    let record = compound(
        vec![
            field("late", TypeDescriptor::Unsigned(IntSize::U1), 4),
            field("early", TypeDescriptor::Unsigned(IntSize::U2), 0),
        ],
        6,
    );
    let bytes = [0x34u8, 0x12, 0xee, 0xee, 0x56, 0xee];
    let mut chunk = DataChunk::new(2, 1);
    assert!(can_decode(&record, &bytes, 0, LE));
    assert!(columns_suffice(&record, 0, 2));
    fill(&record, &bytes, &[], LE, &mut chunk, 0, 0);
    assert_eq!(chunk.get(0, 0), &Value::UInt8(0x56));
    assert_eq!(chunk.get(1, 0), &Value::UInt16(0x1234));
    assert_eq!(chunk.len(), 0);
}

#[test]
fn fill_writes_at_the_column_and_row_given() {
    let record = compound(
        vec![
            field("a", TypeDescriptor::Unsigned(IntSize::U1), 0),
            field("b", TypeDescriptor::Unsigned(IntSize::U1), 1),
        ],
        2,
    );
    let mut chunk = DataChunk::new(4, 3);
    assert!(columns_suffice(&record, 1, 4));
    fill(&record, &[10, 20], &[], LE, &mut chunk, 1, 2);
    for column in 0..4 {
        for row in 0..3 {
            let expected = match (column, row) {
                (1, 2) => Value::UInt8(10),
                (2, 2) => Value::UInt8(20),
                _ => Value::Null,
            };
            assert_eq!(chunk.get(column, row), &expected);
        }
    }
}

#[test]
fn field_of_a_nested_compound_goes_to_the_column_after_its_place() {
    let inner = compound(
        vec![
            field("x", TypeDescriptor::Unsigned(IntSize::U1), 0),
            field("y", TypeDescriptor::Unsigned(IntSize::U1), 1),
        ],
        2,
    );
    let record = compound(
        vec![
            field("a", TypeDescriptor::Unsigned(IntSize::U1), 0),
            field("b", inner, 1),
            field("c", TypeDescriptor::Unsigned(IntSize::U1), 3),
        ],
        4,
    );
    let mut chunk = DataChunk::new(3, 1);
    assert!(columns_suffice(&record, 0, 3));
    fill(&record, &[1, 2, 3, 4], &[], LE, &mut chunk, 0, 0);
    assert_eq!(chunk.get(0, 0), &Value::UInt8(1));
    assert_eq!(chunk.get(1, 0), &Value::UInt8(2));
    assert_eq!(chunk.get(2, 0), &Value::UInt8(4));
}

#[test]
fn columns_suffice_counts_every_field_position() {
    let scalar = TypeDescriptor::Boolean;
    assert!(columns_suffice(&scalar, 0, 1));
    assert!(!columns_suffice(&scalar, 1, 1));
    assert!(!columns_suffice(&scalar, 0, 0));
    let inner = compound(
        vec![field("x", TypeDescriptor::Boolean, 0), field("y", TypeDescriptor::Boolean, 1)],
        2,
    );
    let record = compound(vec![field("a", TypeDescriptor::Boolean, 0), field("b", inner, 1)], 3);
    assert!(!columns_suffice(&record, 0, 2));
    assert!(columns_suffice(&record, 0, 3));
    assert!(!columns_suffice(&record, 1, 3));
    assert!(!columns_suffice(&record, usize::MAX, usize::MAX));
    assert!(columns_suffice(&compound(vec![], 0), 0, 0));
    assert!(!columns_suffice(&compound(vec![], 0), 1, 0));
}
