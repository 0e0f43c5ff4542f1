use hdf5_scan::descriptor::{
    CompoundField, CompoundType, EnumType, FloatSize, IntSize, TypeDescriptor, ARRAY_HEADER_SIZE,
    ARRAY_HEADER_WORD, TEXT_HEADER_SIZE, TEXT_HEADER_WORD,
};

fn field(name: &str, ty: TypeDescriptor, offset: usize) -> CompoundField {
    CompoundField { name: name.to_string(), ty, offset }
}

fn compound(fields: Vec<CompoundField>, size: usize) -> TypeDescriptor {
    TypeDescriptor::Compound(CompoundType { fields, size })
}

#[test]
fn widths_in_bytes() {
    assert_eq!(IntSize::U1.bytes(), 1);
    assert_eq!(IntSize::U2.bytes(), 2);
    assert_eq!(IntSize::U4.bytes(), 4);
    assert_eq!(IntSize::U8.bytes(), 8);
    assert_eq!(FloatSize::U4.bytes(), 4);
    assert_eq!(FloatSize::U8.bytes(), 8);
}

#[test]
fn scalar_sizes() {
    assert_eq!(TypeDescriptor::Integer(IntSize::U2).size(), 2);
    assert_eq!(TypeDescriptor::Unsigned(IntSize::U8).size(), 8);
    assert_eq!(TypeDescriptor::Float(FloatSize::U4).size(), 4);
    assert_eq!(TypeDescriptor::Float(FloatSize::U8).size(), 8);
    assert_eq!(TypeDescriptor::Boolean.size(), 1);
    assert_eq!(TypeDescriptor::Enum(EnumType { size: IntSize::U4, signed: false }).size(), 4);
}

#[test]
fn fixed_sizes_multiply_out() {
    let array = TypeDescriptor::FixedArray(Box::new(TypeDescriptor::Integer(IntSize::U4)), 3);
    assert_eq!(array.size(), 12);
    let nested = TypeDescriptor::FixedArray(Box::new(array), 2);
    assert_eq!(nested.size(), 24);
    assert_eq!(TypeDescriptor::FixedAscii(7).size(), 7);
    assert_eq!(TypeDescriptor::FixedUnicode(9).size(), 9);
    assert_eq!(TypeDescriptor::Reference(8).size(), 8);
}

#[test]
fn variable_length_values_occupy_their_header() {
    assert_eq!(ARRAY_HEADER_SIZE, 2 * ARRAY_HEADER_WORD);
    assert_eq!(TEXT_HEADER_SIZE, 2 * TEXT_HEADER_WORD);
    let list = TypeDescriptor::VarLenArray(Box::new(TypeDescriptor::Float(FloatSize::U8)));
    assert_eq!(list.size(), 16);
    assert_eq!(TypeDescriptor::VarLenAscii.size(), 8);
    assert_eq!(TypeDescriptor::VarLenUnicode.size(), 8);
}

#[test]
fn compound_size_is_the_declared_one() {
    let padded = compound(
        vec![
            field("a", TypeDescriptor::Integer(IntSize::U4), 0),
            field("b", TypeDescriptor::Integer(IntSize::U4), 4),
        ],
        12,
    );
    assert!(padded.is_well_formed());
    assert_eq!(padded.size(), 12);
    assert_eq!(compound(vec![], 0).size(), 0);
}

#[test]
fn compound_size_does_not_depend_on_its_fields() {
    let reaching_out = compound(vec![field("a", TypeDescriptor::Integer(IntSize::U8), 4)], 5);
    assert!(!reaching_out.is_well_formed());
    assert_eq!(reaching_out.size(), 5);
}

#[test]
fn enum_base_type_follows_the_sign() {
    let signed = EnumType { size: IntSize::U2, signed: true };
    let unsigned = EnumType { size: IntSize::U1, signed: false };
    assert_eq!(signed.base_type(), TypeDescriptor::Integer(IntSize::U2));
    assert_eq!(unsigned.base_type(), TypeDescriptor::Unsigned(IntSize::U1));
}

#[test]
fn field_beyond_declared_size_is_not_well_formed() {
    let short = compound(vec![field("a", TypeDescriptor::Integer(IntSize::U4), 2)], 5);
    assert!(!short.is_well_formed());
    let exact = compound(vec![field("a", TypeDescriptor::Integer(IntSize::U4), 2)], 6);
    assert!(exact.is_well_formed());
    let wrapped = compound(vec![field("a", TypeDescriptor::Integer(IntSize::U4), usize::MAX)], 8);
    assert!(!wrapped.is_well_formed());
}

#[test]
fn array_too_large_for_the_machine_is_not_well_formed() {
    let huge =
        TypeDescriptor::FixedArray(Box::new(TypeDescriptor::Integer(IntSize::U8)), usize::MAX);
    assert!(!huge.is_well_formed());
    let inner = TypeDescriptor::VarLenArray(Box::new(huge));
    assert!(!inner.is_well_formed());
    let fits =
        TypeDescriptor::FixedArray(Box::new(TypeDescriptor::Integer(IntSize::U1)), usize::MAX);
    assert!(fits.is_well_formed());
    assert_eq!(fits.size(), usize::MAX);
}

#[test]
fn flaw_deep_in_the_tree_is_found() {
    let bad = compound(vec![field("x", TypeDescriptor::Boolean, 1)], 1);
    let outer = compound(
        vec![field("ok", TypeDescriptor::Boolean, 0), field("inner", bad, 1)],
        2,
    );
    assert!(!outer.is_well_formed());
}

#[test]
fn copied_descriptors_are_equal() {
    let inner = compound(
        vec![
            field("x", TypeDescriptor::Integer(IntSize::U1), 0),
            field("y", TypeDescriptor::VarLenUnicode, 8),
        ],
        16,
    );
    let outer = compound(
        vec![
            field("a", TypeDescriptor::FixedArray(Box::new(inner.clone()), 2), 0),
            field("b", TypeDescriptor::Enum(EnumType { size: IntSize::U4, signed: true }), 32),
            field("c", TypeDescriptor::Reference(12), 36),
        ],
        64,
    );
    assert_eq!(outer.clone(), outer);
    assert_eq!(outer.duplicate(), outer);
    assert_ne!(outer.clone(), inner);
}
