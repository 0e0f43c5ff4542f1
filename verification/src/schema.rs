use crate::descriptor::{
    fields_model, CompoundField, FieldModel, FloatSize, IntSize, TypeDescriptor, TypeModel,
};
use vstd::prelude::*;

verus! {

/// The type of one output column.
#[derive(Debug, PartialEq, Eq)]
pub enum ColumnType {
    Tinyint,
    Smallint,
    Integer,
    Bigint,
    UTinyint,
    USmallint,
    UInteger,
    UBigint,
    Float,
    Double,
    Boolean,
    Varchar,
    Blob,
    /// A fixed number of elements of one type.
    Array(Box<ColumnType>, usize),
    /// Any number of elements of one type.
    List(Box<ColumnType>),
    /// Named members, in order.
    Struct(Vec<Column>),
}

/// A named output column.
#[derive(Debug, PartialEq, Eq)]
pub struct Column {
    pub name: String,
    pub ty: ColumnType,
}

/// Mathematical model of a [`ColumnType`].
pub enum ColumnTypeModel {
    Tinyint,
    Smallint,
    Integer,
    Bigint,
    UTinyint,
    USmallint,
    UInteger,
    UBigint,
    Float,
    Double,
    Boolean,
    Varchar,
    Blob,
    Array(Box<ColumnTypeModel>, nat),
    List(Box<ColumnTypeModel>),
    Struct(Seq<ColumnModel>),
}

/// Mathematical model of a [`Column`].
pub struct ColumnModel {
    pub name: Seq<char>,
    pub ty: ColumnTypeModel,
}

impl Column {
    /// The column as a mathematical value.
    pub open spec fn model(&self) -> ColumnModel
        decreases self,
    {
        ColumnModel { name: self.name@, ty: self.ty.model() }
    }
}

/// The models of `columns`, in order.
pub open spec fn columns_model(columns: Vec<Column>) -> Seq<ColumnModel>
    decreases columns,
{
    Seq::new(
        columns.len() as nat,
        |i: int|
            if 0 <= i < columns.len() {
                columns[i].model()
            } else {
                arbitrary()
            },
    )
}

impl ColumnType {
    /// The column type as a mathematical value.
    pub open spec fn model(&self) -> ColumnTypeModel
        decreases self,
    {
        match self {
            ColumnType::Tinyint => ColumnTypeModel::Tinyint,
            ColumnType::Smallint => ColumnTypeModel::Smallint,
            ColumnType::Integer => ColumnTypeModel::Integer,
            ColumnType::Bigint => ColumnTypeModel::Bigint,
            ColumnType::UTinyint => ColumnTypeModel::UTinyint,
            ColumnType::USmallint => ColumnTypeModel::USmallint,
            ColumnType::UInteger => ColumnTypeModel::UInteger,
            ColumnType::UBigint => ColumnTypeModel::UBigint,
            ColumnType::Float => ColumnTypeModel::Float,
            ColumnType::Double => ColumnTypeModel::Double,
            ColumnType::Boolean => ColumnTypeModel::Boolean,
            ColumnType::Varchar => ColumnTypeModel::Varchar,
            ColumnType::Blob => ColumnTypeModel::Blob,
            ColumnType::Array(ty, len) => ColumnTypeModel::Array(Box::new(ty.model()), *len as nat),
            ColumnType::List(ty) => ColumnTypeModel::List(Box::new(ty.model())),
            ColumnType::Struct(members) => ColumnTypeModel::Struct(columns_model(*members)),
        }
    }
}

impl View for ColumnType {
    type V = ColumnTypeModel;

    open spec fn view(&self) -> ColumnTypeModel {
        self.model()
    }
}

impl View for Column {
    type V = ColumnModel;

    open spec fn view(&self) -> ColumnModel {
        self.model()
    }
}

/// The column type of a signed integer of the given width.
pub open spec fn signed_target(size: IntSize) -> ColumnTypeModel {
    match size {
        IntSize::U1 => ColumnTypeModel::Tinyint,
        IntSize::U2 => ColumnTypeModel::Smallint,
        IntSize::U4 => ColumnTypeModel::Integer,
        IntSize::U8 => ColumnTypeModel::Bigint,
    }
}

/// The column type of an unsigned integer of the given width.
pub open spec fn unsigned_target(size: IntSize) -> ColumnTypeModel {
    match size {
        IntSize::U1 => ColumnTypeModel::UTinyint,
        IntSize::U2 => ColumnTypeModel::USmallint,
        IntSize::U4 => ColumnTypeModel::UInteger,
        IntSize::U8 => ColumnTypeModel::UBigint,
    }
}

/// Name of the single column of a descriptor that is not a compound.
pub open spec fn result_name() -> Seq<char> {
    "result"@
}

/// One column per field, named after the field, in declaration order.
pub open spec fn member_columns(fields: Seq<FieldModel>) -> Seq<ColumnModel>
    decreases fields,
{
    Seq::new(
        fields.len(),
        |i: int|
            if 0 <= i < fields.len() {
                ColumnModel { name: fields[i].name, ty: fields[i].ty.target() }
            } else {
                arbitrary()
            },
    )
}

impl TypeModel {
    /// The type of the one column that holds a value of this shape. An
    /// enumeration takes the type of its base; a compound becomes a struct of
    /// its fields; text of either encoding becomes `Varchar`.
    pub open spec fn target(self) -> ColumnTypeModel
        decreases self,
    {
        match self {
            TypeModel::Integer(s) => signed_target(s),
            TypeModel::Unsigned(s) => unsigned_target(s),
            TypeModel::Float(FloatSize::U4) => ColumnTypeModel::Float,
            TypeModel::Float(FloatSize::U8) => ColumnTypeModel::Double,
            TypeModel::Boolean => ColumnTypeModel::Boolean,
            TypeModel::Enum(e) => if e.signed {
                signed_target(e.size)
            } else {
                unsigned_target(e.size)
            },
            TypeModel::Compound(fields, _) => ColumnTypeModel::Struct(member_columns(fields)),
            TypeModel::FixedArray(ty, len) => ColumnTypeModel::Array(Box::new(ty.target()), len),
            TypeModel::VarLenArray(ty) => ColumnTypeModel::List(Box::new(ty.target())),
            TypeModel::FixedAscii(_) => ColumnTypeModel::Varchar,
            TypeModel::FixedUnicode(_) => ColumnTypeModel::Varchar,
            TypeModel::VarLenAscii => ColumnTypeModel::Varchar,
            TypeModel::VarLenUnicode => ColumnTypeModel::Varchar,
            TypeModel::Reference(_) => ColumnTypeModel::Blob,
        }
    }

    /// The output columns of a record of this shape. Only the outermost
    /// compound is flattened into one column per field; any other shape is the
    /// single column `result`.
    pub open spec fn columns(self) -> Seq<ColumnModel> {
        match self {
            TypeModel::Compound(fields, _) => member_columns(fields),
            _ => seq![ColumnModel { name: result_name(), ty: self.target() }],
        }
    }
}

/// The columns of a compound follow its fields: as many, in declaration
/// order, each under its field's name and of its field's column type.
pub proof fn lemma_columns_follow_fields(fields: Seq<FieldModel>, size: nat, i: int)
    requires
        0 <= i < fields.len(),
    ensures
        TypeModel::Compound(fields, size).columns().len() == fields.len(),
        TypeModel::Compound(fields, size).columns()[i].name == fields[i].name,
        TypeModel::Compound(fields, size).columns()[i].ty == fields[i].ty.target(),
{
}

/// A descriptor that is no compound has the one column `result`.
pub proof fn lemma_single_column(d: TypeModel)
    requires
        !(d is Compound),
    ensures
        d.columns().len() == 1,
        d.columns()[0].name == result_name(),
        d.columns()[0].ty == d.target(),
{
}

/// Two column lists made from equal descriptors are equal, column by column.
pub proof fn lemma_schema_deterministic(
    first: TypeDescriptor,
    second: TypeDescriptor,
    columns: Vec<Column>,
    again: Vec<Column>,
)
    requires
        first@ == second@,
        columns_model(columns) == first@.columns(),
        columns_model(again) == second@.columns(),
    ensures
        columns_model(columns) == columns_model(again),
        columns.len() == again.len(),
        forall|i: int| 0 <= i < columns.len() ==> (#[trigger] columns[i])@ == again[i]@,
{
    assert(columns_model(columns).len() == columns.len());
    assert(columns_model(again).len() == again.len());
    assert forall|i: int| 0 <= i < columns.len() implies (#[trigger] columns[i])@ == again[i]@ by {
        assert(columns_model(columns)[i] == columns[i]@);
        assert(columns_model(again)[i] == again[i]@);
    }
}

fn signed_column(size: IntSize) -> (ty: ColumnType)
    ensures
        ty@ == signed_target(size),
{
    match size {
        IntSize::U1 => ColumnType::Tinyint,
        IntSize::U2 => ColumnType::Smallint,
        IntSize::U4 => ColumnType::Integer,
        IntSize::U8 => ColumnType::Bigint,
    }
}

fn unsigned_column(size: IntSize) -> (ty: ColumnType)
    ensures
        ty@ == unsigned_target(size),
{
    match size {
        IntSize::U1 => ColumnType::UTinyint,
        IntSize::U2 => ColumnType::USmallint,
        IntSize::U4 => ColumnType::UInteger,
        IntSize::U8 => ColumnType::UBigint,
    }
}

fn field_columns(fields: &Vec<CompoundField>) -> (columns: Vec<Column>)
    ensures
        columns_model(columns) == member_columns(fields_model(*fields)),
    decreases fields,
{
    let mut columns: Vec<Column> = Vec::new();
    let mut i: usize = 0;
    while i < fields.len()
        invariant
            i <= fields.len(),
            columns.len() == i,
            forall|j: int|
                0 <= j < i ==> (#[trigger] columns[j]).model() == (ColumnModel {
                    name: fields[j].name@,
                    ty: fields[j].ty@.target(),
                }),
        decreases fields.len() - i,
    {
        let field = &fields[i];
        columns.push(Column { name: field.name.clone(), ty: target_type(&field.ty) });
        i += 1;
    }
    assert(columns_model(columns) =~= member_columns(fields_model(*fields)));
    columns
}

/// The type of the one column that holds a value described by `dtype`.
pub fn target_type(dtype: &TypeDescriptor) -> (ty: ColumnType)
    ensures
        ty@ == dtype@.target(),
    decreases dtype,
{
    match dtype {
        TypeDescriptor::Integer(s) => signed_column(*s),
        TypeDescriptor::Unsigned(s) => unsigned_column(*s),
        TypeDescriptor::Float(FloatSize::U4) => ColumnType::Float,
        TypeDescriptor::Float(FloatSize::U8) => ColumnType::Double,
        TypeDescriptor::Boolean => ColumnType::Boolean,
        TypeDescriptor::Enum(e) => if e.signed {
            signed_column(e.size)
        } else {
            unsigned_column(e.size)
        },
        TypeDescriptor::Compound(c) => ColumnType::Struct(field_columns(&c.fields)),
        TypeDescriptor::FixedArray(ty, len) => ColumnType::Array(Box::new(target_type(ty)), *len),
        TypeDescriptor::VarLenArray(ty) => ColumnType::List(Box::new(target_type(ty))),
        TypeDescriptor::FixedAscii(_) => ColumnType::Varchar,
        TypeDescriptor::FixedUnicode(_) => ColumnType::Varchar,
        TypeDescriptor::VarLenAscii => ColumnType::Varchar,
        TypeDescriptor::VarLenUnicode => ColumnType::Varchar,
        TypeDescriptor::Reference(_) => ColumnType::Blob,
    }
}

/// The output columns of a record described by `dtype`, in order.
pub fn iter_dtype(dtype: &TypeDescriptor) -> (columns: Vec<Column>)
    ensures
        columns_model(columns) == dtype@.columns(),
{
    match dtype {
        TypeDescriptor::Compound(c) => field_columns(&c.fields),
        _ => {
            let mut columns: Vec<Column> = Vec::new();
            columns.push(Column { name: "result".to_owned(), ty: target_type(dtype) });
            assert(columns_model(columns) =~= dtype@.columns());
            columns
        },
    }
}

} // verus!
