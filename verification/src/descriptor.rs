use vstd::prelude::*;

verus! {

/// Width of an integer scalar.
#[derive(Clone, Copy, Debug, PartialEq, Eq, Structural)]
pub enum IntSize {
    U1,
    U2,
    U4,
    U8,
}

impl IntSize {
    /// The width in bytes.
    pub open spec fn spec_bytes(self) -> nat {
        match self {
            IntSize::U1 => 1,
            IntSize::U2 => 2,
            IntSize::U4 => 4,
            IntSize::U8 => 8,
        }
    }

    /// The width in bytes.
    pub fn bytes(self) -> (n: usize)
        ensures
            n == self.spec_bytes(),
    {
        match self {
            IntSize::U1 => 1,
            IntSize::U2 => 2,
            IntSize::U4 => 4,
            IntSize::U8 => 8,
        }
    }
}

/// Width of a floating-point scalar.
#[derive(Clone, Copy, Debug, PartialEq, Eq, Structural)]
pub enum FloatSize {
    U4,
    U8,
}

impl FloatSize {
    /// The width in bytes.
    pub open spec fn spec_bytes(self) -> nat {
        match self {
            FloatSize::U4 => 4,
            FloatSize::U8 => 8,
        }
    }

    /// The width in bytes.
    pub fn bytes(self) -> (n: usize)
        ensures
            n == self.spec_bytes(),
    {
        match self {
            FloatSize::U4 => 4,
            FloatSize::U8 => 8,
        }
    }
}

/// An enumeration over an integer base type. Its labels play no part in
/// decoding, so only the base type is kept.
#[derive(Clone, Copy, Debug, PartialEq, Eq, Structural)]
pub struct EnumType {
    pub size: IntSize,
    pub signed: bool,
}

/// One named member of a compound, at a byte offset from the compound's start.
#[derive(Debug, PartialEq, Eq)]
pub struct CompoundField {
    pub name: String,
    pub ty: TypeDescriptor,
    pub offset: usize,
}

/// A record of named fields. `size` is the distance between two consecutive
/// records and may exceed what the fields cover.
#[derive(Debug, PartialEq, Eq)]
pub struct CompoundType {
    pub fields: Vec<CompoundField>,
    pub size: usize,
}

/// The binary shape of one value.
#[derive(Debug, PartialEq, Eq)]
pub enum TypeDescriptor {
    /// A two's-complement integer.
    Integer(IntSize),
    /// An unsigned integer.
    Unsigned(IntSize),
    /// A floating-point number.
    Float(FloatSize),
    /// One byte, true unless it is zero.
    Boolean,
    /// An enumeration, stored as its base type.
    Enum(EnumType),
    /// A record of named fields.
    Compound(CompoundType),
    /// The given number of elements, one after the other.
    FixedArray(Box<TypeDescriptor>, usize),
    /// Text of one byte per character, in the given number of bytes.
    FixedAscii(usize),
    /// Text in UTF-8, in the given number of bytes.
    FixedUnicode(usize),
    /// A header in line and any number of elements in the payload area.
    VarLenArray(Box<TypeDescriptor>),
    /// A header in line and text of one byte per character in the payload
    /// area.
    VarLenAscii,
    /// A header in line and text in UTF-8 in the payload area.
    VarLenUnicode,
    /// A token of the given number of bytes that refers to another object. It
    /// is not followed.
    Reference(usize),
}

/// Mathematical model of a [`CompoundField`].
pub struct FieldModel {
    pub name: Seq<char>,
    pub ty: TypeModel,
    pub offset: nat,
}

/// Mathematical model of a [`TypeDescriptor`].
pub enum TypeModel {
    Integer(IntSize),
    Unsigned(IntSize),
    Float(FloatSize),
    Boolean,
    Enum(EnumType),
    Compound(Seq<FieldModel>, nat),
    FixedArray(Box<TypeModel>, nat),
    FixedAscii(nat),
    FixedUnicode(nat),
    VarLenArray(Box<TypeModel>),
    VarLenAscii,
    VarLenUnicode,
    Reference(nat),
}

impl CompoundField {
    /// The field as a mathematical value.
    pub open spec fn model(&self) -> FieldModel
        decreases self,
    {
        FieldModel { name: self.name@, ty: self.ty.model(), offset: self.offset as nat }
    }
}

impl View for CompoundField {
    type V = FieldModel;

    open spec fn view(&self) -> FieldModel {
        self.model()
    }
}

/// The models of `fields`, in order.
pub open spec fn fields_model(fields: Vec<CompoundField>) -> Seq<FieldModel>
    decreases fields,
{
    Seq::new(
        fields.len() as nat,
        |i: int|
            if 0 <= i < fields.len() {
                fields[i].model()
            } else {
                arbitrary()
            },
    )
}

impl TypeDescriptor {
    /// The descriptor as a mathematical value.
    pub open spec fn model(&self) -> TypeModel
        decreases self,
    {
        match self {
            TypeDescriptor::Integer(s) => TypeModel::Integer(*s),
            TypeDescriptor::Unsigned(s) => TypeModel::Unsigned(*s),
            TypeDescriptor::Float(s) => TypeModel::Float(*s),
            TypeDescriptor::Boolean => TypeModel::Boolean,
            TypeDescriptor::Enum(e) => TypeModel::Enum(*e),
            TypeDescriptor::Compound(c) => TypeModel::Compound(
                fields_model(c.fields),
                c.size as nat,
            ),
            TypeDescriptor::FixedArray(ty, len) => TypeModel::FixedArray(
                Box::new(ty.model()),
                *len as nat,
            ),
            TypeDescriptor::FixedAscii(len) => TypeModel::FixedAscii(*len as nat),
            TypeDescriptor::FixedUnicode(len) => TypeModel::FixedUnicode(*len as nat),
            TypeDescriptor::VarLenArray(ty) => TypeModel::VarLenArray(Box::new(ty.model())),
            TypeDescriptor::VarLenAscii => TypeModel::VarLenAscii,
            TypeDescriptor::VarLenUnicode => TypeModel::VarLenUnicode,
            TypeDescriptor::Reference(size) => TypeModel::Reference(*size as nat),
        }
    }
}

impl View for TypeDescriptor {
    type V = TypeModel;

    open spec fn view(&self) -> TypeModel {
        self.model()
    }
}

/// Width of each of the two numbers in the header of a variable-length array.
pub const ARRAY_HEADER_WORD: usize = 8;

/// Width of each of the two numbers in the header of a variable-length text.
pub const TEXT_HEADER_WORD: usize = 4;

/// In-line size of a variable-length array: its header, a count of elements
/// followed by a locator of the payload, each of [`ARRAY_HEADER_WORD`] bytes.
pub const ARRAY_HEADER_SIZE: usize = 16;

/// In-line size of a variable-length text: its header, a count of bytes
/// followed by a locator of the payload, each of [`TEXT_HEADER_WORD`] bytes.
///
/// The two in-line sizes are those that the HDF5 library gives such values in
/// memory on a 64-bit machine, so that the offsets of a dataset's own
/// compound type hold for the records handed to this crate.
pub const TEXT_HEADER_SIZE: usize = 8;

impl EnumType {
    /// The integer type whose representation the enumeration shares.
    pub open spec fn spec_base_type(self) -> TypeModel {
        if self.signed {
            TypeModel::Integer(self.size)
        } else {
            TypeModel::Unsigned(self.size)
        }
    }

    /// The integer type whose representation the enumeration shares.
    pub fn base_type(&self) -> (base: TypeDescriptor)
        ensures
            base@ == self.spec_base_type(),
    {
        if self.signed {
            TypeDescriptor::Integer(self.size)
        } else {
            TypeDescriptor::Unsigned(self.size)
        }
    }
}

impl TypeModel {
    /// Number of bytes that one value occupies in-line. A variable-length value
    /// occupies its header; a compound occupies its declared size.
    pub open spec fn size(self) -> nat
        decreases self,
    {
        match self {
            TypeModel::Integer(s) => s.spec_bytes(),
            TypeModel::Unsigned(s) => s.spec_bytes(),
            TypeModel::Float(s) => s.spec_bytes(),
            TypeModel::Boolean => 1,
            TypeModel::Enum(e) => e.size.spec_bytes(),
            TypeModel::Compound(_, size) => size,
            TypeModel::FixedArray(ty, len) => ty.size() * len,
            TypeModel::FixedAscii(len) => len,
            TypeModel::FixedUnicode(len) => len,
            TypeModel::VarLenArray(_) => ARRAY_HEADER_SIZE as nat,
            TypeModel::VarLenAscii => TEXT_HEADER_SIZE as nat,
            TypeModel::VarLenUnicode => TEXT_HEADER_SIZE as nat,
            TypeModel::Reference(size) => size,
        }
    }

    /// The in-line size fits the machine: that of an array, and of the
    /// arrays that are its elements.
    pub open spec fn sized(self) -> bool
        decreases self,
    {
        match self {
            TypeModel::FixedArray(ty, len) => ty.sized() && ty.size() * len <= usize::MAX,
            _ => true,
        }
    }

    /// Every in-line size in the tree fits the machine, and every field of a
    /// compound lies within the compound's declared size.
    pub open spec fn wf(self) -> bool
        decreases self,
    {
        match self {
            TypeModel::Compound(fields, size) => forall|i: int|
                0 <= i < fields.len() ==> (#[trigger] fields[i]).ty.wf() && fields[i].offset
                    + fields[i].ty.size() <= size,
            TypeModel::FixedArray(ty, len) => ty.wf() && self.sized(),
            TypeModel::VarLenArray(ty) => ty.wf(),
            _ => true,
        }
    }
}

/// The in-line size of a well-formed descriptor fits the machine.
pub proof fn lemma_wf_sized(d: TypeModel)
    requires
        d.wf(),
    ensures
        d.sized(),
{
}

/// Whether the first `n` fields are well formed and lie within `size` bytes.
spec fn fields_wf(fields: Seq<FieldModel>, size: nat, n: int) -> bool {
    forall|i: int|
        0 <= i < n ==> (#[trigger] fields[i]).ty.wf() && fields[i].offset + fields[i].ty.size()
            <= size
}

fn fields_well_formed(fields: &Vec<CompoundField>, size: usize) -> (ok: bool)
    ensures
        ok == fields_wf(fields_model(*fields), size as nat, fields.len() as int),
    decreases fields,
{
    let mut i: usize = 0;
    while i < fields.len()
        invariant
            i <= fields.len(),
            fields_wf(fields_model(*fields), size as nat, i as int),
        decreases fields.len() - i,
    {
        let field = &fields[i];
        assert(fields_model(*fields)[i as int] == field.model());
        if !field.ty.is_well_formed() {
            return false;
        }
        proof {
            lemma_wf_sized(field.ty@);
        }
        match field.offset.checked_add(field.ty.size()) {
            Some(end) => {
                if end > size {
                    return false;
                }
            },
            None => {
                return false;
            },
        }
        i += 1;
    }
    true
}

impl TypeDescriptor {
    /// Decides [`TypeModel::wf`].
    pub fn is_well_formed(&self) -> (ok: bool)
        ensures
            ok == self@.wf(),
            ok ==> self@.sized(),
        decreases self,
    {
        proof {
            if self@.wf() {
                lemma_wf_sized(self@);
            }
        }
        match self {
            TypeDescriptor::Compound(c) => fields_well_formed(&c.fields, c.size),
            TypeDescriptor::FixedArray(ty, len) => {
                if !ty.is_well_formed() {
                    return false;
                }
                proof {
                    lemma_wf_sized(ty@);
                }
                ty.size().checked_mul(*len).is_some()
            },
            TypeDescriptor::VarLenArray(ty) => ty.is_well_formed(),
            _ => true,
        }
    }

    /// Number of bytes that one value occupies in-line.
    pub fn size(&self) -> (n: usize)
        requires
            self@.sized(),
        ensures
            n == self@.size(),
        decreases self,
    {
        match self {
            TypeDescriptor::Integer(s) => s.bytes(),
            TypeDescriptor::Unsigned(s) => s.bytes(),
            TypeDescriptor::Float(s) => s.bytes(),
            TypeDescriptor::Boolean => 1,
            TypeDescriptor::Enum(e) => e.size.bytes(),
            TypeDescriptor::Compound(c) => c.size,
            TypeDescriptor::FixedArray(ty, len) => ty.size() * *len,
            TypeDescriptor::FixedAscii(len) => *len,
            TypeDescriptor::FixedUnicode(len) => *len,
            TypeDescriptor::VarLenArray(_) => ARRAY_HEADER_SIZE,
            TypeDescriptor::VarLenAscii => TEXT_HEADER_SIZE,
            TypeDescriptor::VarLenUnicode => TEXT_HEADER_SIZE,
            TypeDescriptor::Reference(size) => *size,
        }
    }
}

fn duplicate_fields(fields: &Vec<CompoundField>) -> (copy: Vec<CompoundField>)
    ensures
        fields_model(copy) == fields_model(*fields),
    decreases fields,
{
    let mut copy: Vec<CompoundField> = Vec::new();
    let mut i: usize = 0;
    while i < fields.len()
        invariant
            i <= fields.len(),
            copy.len() == i,
            forall|j: int| 0 <= j < i ==> (#[trigger] copy[j]).model() == fields[j].model(),
        decreases fields.len() - i,
    {
        copy.push(fields[i].duplicate());
        i += 1;
    }
    assert(fields_model(copy) =~= fields_model(*fields));
    copy
}

impl CompoundField {
    /// A deep copy.
    pub fn duplicate(&self) -> (copy: Self)
        ensures
            copy@ == self@,
        decreases self,
    {
        CompoundField { name: self.name.clone(), ty: self.ty.duplicate(), offset: self.offset }
    }
}

impl TypeDescriptor {
    /// A deep copy.
    pub fn duplicate(&self) -> (copy: Self)
        ensures
            copy@ == self@,
        decreases self,
    {
        match self {
            TypeDescriptor::Integer(s) => TypeDescriptor::Integer(*s),
            TypeDescriptor::Unsigned(s) => TypeDescriptor::Unsigned(*s),
            TypeDescriptor::Float(s) => TypeDescriptor::Float(*s),
            TypeDescriptor::Boolean => TypeDescriptor::Boolean,
            TypeDescriptor::Enum(e) => TypeDescriptor::Enum(*e),
            TypeDescriptor::Compound(c) => TypeDescriptor::Compound(
                CompoundType { fields: duplicate_fields(&c.fields), size: c.size },
            ),
            TypeDescriptor::FixedArray(ty, len) => TypeDescriptor::FixedArray(
                Box::new(ty.duplicate()),
                *len,
            ),
            TypeDescriptor::FixedAscii(len) => TypeDescriptor::FixedAscii(*len),
            TypeDescriptor::FixedUnicode(len) => TypeDescriptor::FixedUnicode(*len),
            TypeDescriptor::VarLenArray(ty) => TypeDescriptor::VarLenArray(Box::new(ty.duplicate())),
            TypeDescriptor::VarLenAscii => TypeDescriptor::VarLenAscii,
            TypeDescriptor::VarLenUnicode => TypeDescriptor::VarLenUnicode,
            TypeDescriptor::Reference(size) => TypeDescriptor::Reference(*size),
        }
    }
}

impl Clone for CompoundField {
    fn clone(&self) -> (copy: Self)
        ensures
            copy@ == self@,
    {
        self.duplicate()
    }
}

impl Clone for CompoundType {
    fn clone(&self) -> (copy: Self)
        ensures
            fields_model(copy.fields) == fields_model(self.fields),
            copy.size == self.size,
    {
        CompoundType { fields: duplicate_fields(&self.fields), size: self.size }
    }
}

impl Clone for TypeDescriptor {
    fn clone(&self) -> (copy: Self)
        ensures
            copy@ == self@,
    {
        self.duplicate()
    }
}

} // verus!
