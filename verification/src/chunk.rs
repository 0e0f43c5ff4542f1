use vstd::prelude::*;

verus! {

/// One decoded value, or the content of a cell that was never written.
///
/// A floating-point number is held as its bit pattern. Arrays, lists, text and
/// opaque tokens are held as the bytes that were found for them.
#[derive(Debug, PartialEq, Eq)]
pub enum Value {
    Null,
    Int8(i8),
    Int16(i16),
    Int32(i32),
    Int64(i64),
    UInt8(u8),
    UInt16(u16),
    UInt32(u32),
    UInt64(u64),
    Float32(u32),
    Float64(u64),
    Boolean(bool),
    Array(Vec<u8>),
    List(Vec<u8>),
    Text(Vec<u8>),
    Blob(Vec<u8>),
}

/// Mathematical model of a [`Value`].
pub enum ValueModel {
    Null,
    Int8(i8),
    Int16(i16),
    Int32(i32),
    Int64(i64),
    UInt8(u8),
    UInt16(u16),
    UInt32(u32),
    UInt64(u64),
    Float32(u32),
    Float64(u64),
    Boolean(bool),
    Array(Seq<u8>),
    List(Seq<u8>),
    Text(Seq<u8>),
    Blob(Seq<u8>),
}

impl View for Value {
    type V = ValueModel;

    open spec fn view(&self) -> ValueModel {
        match self {
            Value::Null => ValueModel::Null,
            Value::Int8(v) => ValueModel::Int8(*v),
            Value::Int16(v) => ValueModel::Int16(*v),
            Value::Int32(v) => ValueModel::Int32(*v),
            Value::Int64(v) => ValueModel::Int64(*v),
            Value::UInt8(v) => ValueModel::UInt8(*v),
            Value::UInt16(v) => ValueModel::UInt16(*v),
            Value::UInt32(v) => ValueModel::UInt32(*v),
            Value::UInt64(v) => ValueModel::UInt64(*v),
            Value::Float32(v) => ValueModel::Float32(*v),
            Value::Float64(v) => ValueModel::Float64(*v),
            Value::Boolean(v) => ValueModel::Boolean(*v),
            Value::Array(v) => ValueModel::Array(v@),
            Value::List(v) => ValueModel::List(v@),
            Value::Text(v) => ValueModel::Text(v@),
            Value::Blob(v) => ValueModel::Blob(v@),
        }
    }
}

impl Clone for Value {
    fn clone(&self) -> (copy: Self)
        ensures
            copy@ == self@,
    {
        match self {
            Value::Null => Value::Null,
            Value::Int8(v) => Value::Int8(*v),
            Value::Int16(v) => Value::Int16(*v),
            Value::Int32(v) => Value::Int32(*v),
            Value::Int64(v) => Value::Int64(*v),
            Value::UInt8(v) => Value::UInt8(*v),
            Value::UInt16(v) => Value::UInt16(*v),
            Value::UInt32(v) => Value::UInt32(*v),
            Value::UInt64(v) => Value::UInt64(*v),
            Value::Float32(v) => Value::Float32(*v),
            Value::Float64(v) => Value::Float64(*v),
            Value::Boolean(v) => Value::Boolean(*v),
            Value::Array(v) => Value::Array(v.clone()),
            Value::List(v) => Value::List(v.clone()),
            Value::Text(v) => Value::Text(v.clone()),
            Value::Blob(v) => Value::Blob(v.clone()),
        }
    }
}

/// Mathematical model of a [`DataChunk`]: `columns[c][r]` is the cell of
/// column `c` at row slot `r`, and `len` is the number of rows that count.
pub struct ChunkModel {
    pub columns: Seq<Seq<ValueModel>>,
    pub capacity: nat,
    pub len: nat,
}

impl ChunkModel {
    /// A chunk of `columns` columns and `capacity` row slots, nothing written.
    pub open spec fn blank(columns: nat, capacity: nat) -> ChunkModel {
        ChunkModel {
            columns: Seq::new(columns, |c: int| Seq::new(capacity, |r: int| ValueModel::Null)),
            capacity,
            len: 0,
        }
    }

    /// The chunk after `value` replaced the cell at `column`, `row`.
    pub open spec fn write(self, column: int, row: int, value: ValueModel) -> ChunkModel {
        ChunkModel {
            columns: self.columns.update(column, self.columns[column].update(row, value)),
            ..self
        }
    }

    /// The chunk with its row count set to `len`.
    pub open spec fn with_len(self, len: nat) -> ChunkModel {
        ChunkModel { len, ..self }
    }

    /// Every column has one cell per row slot, and the row count fits.
    pub open spec fn wf(self) -> bool {
        &&& self.len <= self.capacity
        &&& forall|c: int| 0 <= c < self.columns.len() ==> (#[trigger] self.columns[c]).len() == self.capacity
    }
}

/// A batch of rows in columnar form: a fixed set of columns with a fixed
/// number of row slots each.
#[derive(Debug)]
pub struct DataChunk {
    columns: Vec<Vec<Value>>,
    capacity: usize,
    len: usize,
}

fn set_cell(cells: &mut Vec<Vec<Value>>, column: usize, row: usize, value: Value)
    requires
        column < old(cells).len(),
        row < old(cells)[column as int].len(),
    ensures
        final(cells).len() == old(cells).len(),
        final(cells)[column as int]@ == old(cells)[column as int]@.update(row as int, value),
        forall|c: int|
            0 <= c < old(cells).len() && c != column ==> #[trigger] final(cells)[c] == old(
                cells,
            )[c],
    no_unwind
{
    let cell_column = &mut cells[column];
    let cell = &mut cell_column[row];
    *cell = value;
}

impl View for DataChunk {
    type V = ChunkModel;

    closed spec fn view(&self) -> ChunkModel {
        ChunkModel {
            columns: Seq::new(
                self.columns.len() as nat,
                |c: int| Seq::new(self.columns[c].len() as nat, |r: int| self.columns[c][r]@),
            ),
            capacity: self.capacity as nat,
            len: self.len as nat,
        }
    }
}

impl DataChunk {
    #[verifier::type_invariant]
    spec fn inv(&self) -> bool {
        &&& self.len <= self.capacity
        &&& forall|c: int| 0 <= c < self.columns.len() ==> (#[trigger] self.columns[c]).len() == self.capacity
    }

    /// A chunk of `columns` columns and `capacity` row slots with no rows.
    pub fn new(columns: usize, capacity: usize) -> (chunk: Self)
        ensures
            chunk@ == ChunkModel::blank(columns as nat, capacity as nat),
            chunk@.wf(),
    {
        let mut cells: Vec<Vec<Value>> = Vec::new();
        let mut c: usize = 0;
        while c < columns
            invariant
                c <= columns,
                cells.len() == c,
                forall|i: int| 0 <= i < c ==> (#[trigger] cells[i]).len() == capacity,
                forall|i: int, r: int| 0 <= i < c && 0 <= r < capacity ==> (#[trigger] cells[i][r]) == Value::Null,
            decreases columns - c,
        {
            let mut column: Vec<Value> = Vec::new();
            let mut r: usize = 0;
            while r < capacity
                invariant
                    r <= capacity,
                    column.len() == r,
                    forall|j: int| 0 <= j < r ==> (#[trigger] column[j]) == Value::Null,
                decreases capacity - r,
            {
                column.push(Value::Null);
                r += 1;
            }
            cells.push(column);
            c += 1;
        }
        let chunk = DataChunk { columns: cells, capacity, len: 0 };
        assert(chunk@.columns =~~= ChunkModel::blank(columns as nat, capacity as nat).columns);
        chunk
    }

    /// Number of columns.
    pub fn num_columns(&self) -> (n: usize)
        ensures
            n == self@.columns.len(),
            self@.wf(),
    {
        proof {
            use_type_invariant(self);
        }
        self.columns.len()
    }

    /// Number of row slots of each column.
    pub fn capacity(&self) -> (n: usize)
        ensures
            n == self@.capacity,
            self@.wf(),
    {
        proof {
            use_type_invariant(self);
        }
        self.capacity
    }

    /// Number of rows that count.
    pub fn len(&self) -> (n: usize)
        ensures
            n == self@.len,
    {
        self.len
    }

    /// The cell of `column` at `row`.
    pub fn get(&self, column: usize, row: usize) -> (value: &Value)
        requires
            column < self@.columns.len(),
            row < self@.capacity,
        ensures
            value@ == self@.columns[column as int][row as int],
    {
        proof {
            use_type_invariant(self);
        }
        &self.columns[column][row]
    }

    /// Replaces the cell of `column` at `row`.
    pub fn write(&mut self, column: usize, row: usize, value: Value)
        requires
            column < old(self)@.columns.len(),
            row < old(self)@.capacity,
        ensures
            final(self)@ == old(self)@.write(column as int, row as int, value@),
    {
        proof {
            use_type_invariant(&*self);
        }
        set_cell(&mut self.columns, column, row, value);
        assert(self@.columns =~~= old(self)@.write(column as int, row as int, value@).columns);
    }

    /// Sets the number of rows that count.
    pub fn set_len(&mut self, len: usize)
        requires
            len <= old(self)@.capacity,
        ensures
            final(self)@ == old(self)@.with_len(len as nat),
    {
        proof {
            use_type_invariant(&*self);
        }
        self.len = len;
    }
}

} // verus!
