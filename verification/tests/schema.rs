use hdf5_scan::descriptor::{
    CompoundField, CompoundType, EnumType, FloatSize, IntSize, TypeDescriptor,
};
use hdf5_scan::schema::{iter_dtype, target_type, Column, ColumnType};

fn field(name: &str, ty: TypeDescriptor, offset: usize) -> CompoundField {
    CompoundField { name: name.to_string(), ty, offset }
}

fn compound(fields: Vec<CompoundField>, size: usize) -> TypeDescriptor {
    TypeDescriptor::Compound(CompoundType { fields, size })
}

fn column(name: &str, ty: ColumnType) -> Column {
    Column { name: name.to_string(), ty }
}

#[test]
fn nested_compound_becomes_one_struct_column() {
    let inner = compound(
        vec![
            field("x", TypeDescriptor::Integer(IntSize::U1), 0),
            field("y", TypeDescriptor::Integer(IntSize::U1), 1),
        ],
        2,
    );
    let outer = compound(
        vec![field("a", TypeDescriptor::Integer(IntSize::U4), 0), field("b", inner, 4)],
        8,
    );
    assert_eq!(
        iter_dtype(&outer),
        vec![
            column("a", ColumnType::Integer),
            column(
                "b",
                ColumnType::Struct(vec![
                    column("x", ColumnType::Tinyint),
                    column("y", ColumnType::Tinyint),
                ])
            ),
        ]
    );
}

#[test]
fn projecting_twice_gives_the_same_columns() {
    let dtype = compound(
        vec![
            field("t", TypeDescriptor::Float(FloatSize::U8), 0),
            field("tag", TypeDescriptor::FixedAscii(4), 8),
            field(
                "v",
                TypeDescriptor::VarLenArray(Box::new(TypeDescriptor::Unsigned(IntSize::U2))),
                16,
            ),
        ],
        32,
    );
    let first = iter_dtype(&dtype);
    let second = iter_dtype(&dtype);
    assert_eq!(first, second);
    assert_eq!(iter_dtype(&dtype.clone()), first);
    let names: Vec<&str> = first.iter().map(|c| c.name.as_str()).collect();
    assert_eq!(names, vec!["t", "tag", "v"]);
}

#[test]
fn integers_map_by_width_and_sign() {
    assert_eq!(target_type(&TypeDescriptor::Integer(IntSize::U1)), ColumnType::Tinyint);
    assert_eq!(target_type(&TypeDescriptor::Integer(IntSize::U2)), ColumnType::Smallint);
    assert_eq!(target_type(&TypeDescriptor::Integer(IntSize::U4)), ColumnType::Integer);
    assert_eq!(target_type(&TypeDescriptor::Integer(IntSize::U8)), ColumnType::Bigint);
    assert_eq!(target_type(&TypeDescriptor::Unsigned(IntSize::U1)), ColumnType::UTinyint);
    assert_eq!(target_type(&TypeDescriptor::Unsigned(IntSize::U2)), ColumnType::USmallint);
    assert_eq!(target_type(&TypeDescriptor::Unsigned(IntSize::U4)), ColumnType::UInteger);
    assert_eq!(target_type(&TypeDescriptor::Unsigned(IntSize::U8)), ColumnType::UBigint);
}

#[test]
fn other_scalars_map_to_their_column_types() {
    assert_eq!(target_type(&TypeDescriptor::Float(FloatSize::U4)), ColumnType::Float);
    assert_eq!(target_type(&TypeDescriptor::Float(FloatSize::U8)), ColumnType::Double);
    assert_eq!(target_type(&TypeDescriptor::Boolean), ColumnType::Boolean);
    assert_eq!(target_type(&TypeDescriptor::Reference(8)), ColumnType::Blob);
}

#[test]
fn enum_takes_the_type_of_its_base() {
    let signed = TypeDescriptor::Enum(EnumType { size: IntSize::U2, signed: true });
    let unsigned = TypeDescriptor::Enum(EnumType { size: IntSize::U1, signed: false });
    assert_eq!(target_type(&signed), ColumnType::Smallint);
    assert_eq!(target_type(&unsigned), ColumnType::UTinyint);
    assert_eq!(iter_dtype(&signed), vec![column("result", ColumnType::Smallint)]);
}

#[test]
fn text_of_either_encoding_and_length_is_varchar() {
    assert_eq!(target_type(&TypeDescriptor::FixedAscii(3)), ColumnType::Varchar);
    assert_eq!(target_type(&TypeDescriptor::FixedUnicode(3)), ColumnType::Varchar);
    assert_eq!(target_type(&TypeDescriptor::VarLenAscii), ColumnType::Varchar);
    assert_eq!(target_type(&TypeDescriptor::VarLenUnicode), ColumnType::Varchar);
}

#[test]
fn arrays_wrap_the_type_of_their_element() {
    let fixed = TypeDescriptor::FixedArray(Box::new(TypeDescriptor::Float(FloatSize::U4)), 3);
    assert_eq!(target_type(&fixed), ColumnType::Array(Box::new(ColumnType::Float), 3));
    let list = TypeDescriptor::VarLenArray(Box::new(fixed));
    assert_eq!(
        target_type(&list),
        ColumnType::List(Box::new(ColumnType::Array(Box::new(ColumnType::Float), 3)))
    );
}

#[test]
fn array_of_compounds_stays_one_column() {
    let point = compound(
        vec![
            field("x", TypeDescriptor::Integer(IntSize::U2), 0),
            field("y", TypeDescriptor::Integer(IntSize::U2), 2),
        ],
        4,
    );
    let dtype = TypeDescriptor::FixedArray(Box::new(point), 5);
    assert_eq!(
        iter_dtype(&dtype),
        vec![column(
            "result",
            ColumnType::Array(
                Box::new(ColumnType::Struct(vec![
                    column("x", ColumnType::Smallint),
                    column("y", ColumnType::Smallint),
                ])),
                5
            )
        )]
    );
}

#[test]
fn descriptor_that_is_no_compound_has_the_column_result() {
    assert_eq!(
        iter_dtype(&TypeDescriptor::Unsigned(IntSize::U4)),
        vec![column("result", ColumnType::UInteger)]
    );
    assert_eq!(
        iter_dtype(&TypeDescriptor::VarLenUnicode),
        vec![column("result", ColumnType::Varchar)]
    );
}

#[test]
fn compound_without_fields_has_no_columns() {
    assert_eq!(iter_dtype(&compound(vec![], 0)), vec![]);
    let outer = compound(vec![field("empty", compound(vec![], 0), 0)], 0);
    assert_eq!(iter_dtype(&outer), vec![column("empty", ColumnType::Struct(vec![]))]);
}

#[test]
fn nested_compound_of_one_field_is_still_a_struct() {
    let inner = compound(vec![field("only", TypeDescriptor::Boolean, 0)], 1);
    let outer = compound(vec![field("wrap", inner, 0)], 1);
    assert_eq!(
        iter_dtype(&outer),
        vec![column("wrap", ColumnType::Struct(vec![column("only", ColumnType::Boolean)]))]
    );
}

#[test]
fn field_name_replaces_the_default_name() {
    let dtype = compound(vec![field("result_of_mine", TypeDescriptor::Boolean, 0)], 1);
    assert_eq!(iter_dtype(&dtype), vec![column("result_of_mine", ColumnType::Boolean)]);
}
