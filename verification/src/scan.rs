use crate::bytes::ByteOrder;
use crate::chunk::{ChunkModel, DataChunk};
use crate::decode::{can_decode, decodable, decode, fill, has_columns};
use crate::descriptor::{lemma_wf_sized, FieldModel, TypeDescriptor, TypeModel};
use crate::position::Hdf5ReadInitData;
use crate::projection::{
    can_select, lemma_project_is_projection, lemma_projection_decodable, project, project_dtype,
    projection_of, selectable,
};
use crate::schema::{columns_model, iter_dtype, Column};
use vstd::prelude::*;

verus! {

/// Why a dataset was not accepted.
#[derive(Clone, Copy, Debug, PartialEq, Eq, Structural)]
pub enum Error {
    /// The descriptor is not well formed: a size in it does not fit the
    /// machine, or a field reaches beyond its compound.
    UnsupportedType,
    /// The bytes do not hold a whole number of decodable records.
    Source,
}

/// Mathematical model of a dataset: the shape of one record, the records one
/// after the other, the payload area and the byte order.
pub struct SourceModel {
    pub dtype: TypeModel,
    pub data: Seq<u8>,
    pub heap: Seq<u8>,
    pub order: ByteOrder,
}

impl SourceModel {
    /// Distance in bytes between two consecutive records: the in-line size of
    /// the record type.
    pub open spec fn stride(self) -> nat {
        self.dtype.size()
    }

    /// Whether a record starts at position `index`.
    pub open spec fn has_row(self, index: nat) -> bool {
        index * self.stride() < self.data.len()
    }

    /// The bytes of the record at position `index`.
    pub open spec fn row(self, index: nat) -> Seq<u8> {
        self.data.subrange(
            (index * self.stride()) as int,
            (index * self.stride() + self.stride()) as int,
        )
    }

    /// The descriptor is well formed, a record of no bytes comes with no
    /// data, and every record that starts in the data is whole and can be
    /// decoded.
    pub open spec fn valid(self) -> bool {
        &&& self.dtype.wf()
        &&& self.stride() == 0 ==> self.data.len() == 0
        &&& forall|r: nat| #[trigger]
            self.has_row(r) ==> r * self.stride() + self.stride() <= self.data.len()
                && decodable(self.dtype, self.row(r), self.heap.len(), self.order)
    }

    /// The chunk after one call for the record at `index`, decoded as `d`:
    /// that record in row slot 0 and a row count of 1, or, where no record
    /// starts at `index`, a row count of 0 and nothing else changed.
    pub open spec fn fill_row(self, index: nat, d: TypeModel, chunk: ChunkModel) -> ChunkModel {
        if self.has_row(index) {
            decode(d, self.row(index), self.heap, self.order, chunk, 0, 0).with_len(1)
        } else {
            chunk.with_len(0)
        }
    }
}

/// Where a cursor stands: before the record at a position, or at the end.
#[derive(Clone, Copy, Debug, PartialEq, Eq, Structural)]
pub enum CursorState {
    Active(usize),
    Exhausted,
}

impl SourceModel {
    /// Whether a call in `state` yields a row.
    pub open spec fn produces(self, state: CursorState) -> bool {
        state matches CursorState::Active(p) && self.has_row(p as nat)
    }

    /// The state after a call in `state`: past the record that was read, or
    /// exhausted where there was none.
    pub open spec fn next_state(self, state: CursorState) -> CursorState {
        match state {
            CursorState::Active(p) => if self.has_row(p as nat) {
                CursorState::Active((p + 1) as usize)
            } else {
                CursorState::Exhausted
            },
            CursorState::Exhausted => CursorState::Exhausted,
        }
    }

    /// The chunk after a call in `state`.
    pub open spec fn next_chunk(self, state: CursorState, d: TypeModel, chunk: ChunkModel) -> ChunkModel {
        match state {
            CursorState::Active(p) => self.fill_row(p as nat, d, chunk),
            CursorState::Exhausted => chunk.with_len(0),
        }
    }

    /// The state after `calls` calls from `state`.
    pub open spec fn state_after(self, state: CursorState, calls: nat) -> CursorState
        decreases calls,
    {
        if calls == 0 {
            state
        } else {
            self.next_state(self.state_after(state, (calls - 1) as nat))
        }
    }

    /// Number of rows that a batch of at most `k` rows yields from `state`:
    /// one per call until `k` are there or a call yields none.
    pub open spec fn batch_count(self, state: CursorState, k: nat) -> nat
        decreases k,
    {
        if k == 0 || !self.produces(state) {
            0
        } else {
            1 + self.batch_count(self.next_state(state), (k - 1) as nat)
        }
    }

    /// The state after a batch of at most `k` rows from `state`.
    pub open spec fn batch_state(self, state: CursorState, k: nat) -> CursorState
        decreases k,
    {
        if k == 0 {
            state
        } else if !self.produces(state) {
            CursorState::Exhausted
        } else {
            self.batch_state(self.next_state(state), (k - 1) as nat)
        }
    }

    /// The cells after a batch of at most `k` rows from `state`, the first of
    /// them decoded into row slot `row`, each further one into the next slot.
    pub open spec fn batch_chunk(
        self,
        state: CursorState,
        d: TypeModel,
        chunk: ChunkModel,
        k: nat,
        row: int,
    ) -> ChunkModel
        decreases k,
    {
        if k == 0 || !self.produces(state) {
            chunk
        } else {
            self.batch_chunk(
                self.next_state(state),
                d,
                decode(
                    d,
                    self.row(state->Active_0 as nat),
                    self.heap,
                    self.order,
                    chunk,
                    0,
                    row,
                ),
                (k - 1) as nat,
                row + 1,
            )
        }
    }
}

/// Once a call has yielded no row, the cursor is exhausted after it and after
/// every later call, and none of them yields a row.
pub proof fn lemma_exhaustion_is_final(s: SourceModel, state: CursorState, calls: nat)
    requires
        !s.produces(state),
        calls >= 1,
    ensures
        s.state_after(state, calls) == CursorState::Exhausted,
        !s.produces(s.state_after(state, calls)),
        forall|d: TypeModel, chunk: ChunkModel|
            s.next_chunk(s.state_after(state, calls), d, chunk) == chunk.with_len(0),
    decreases calls,
{
    if calls > 1 {
        lemma_exhaustion_is_final(s, state, (calls - 1) as nat);
    } else {
        assert(s.state_after(state, 0) == state);
    }
}

/// A batch that was asked for at least one row and yielded none leaves the
/// cursor exhausted, and every later batch yields none.
pub proof fn lemma_empty_batch_is_final(s: SourceModel, state: CursorState, k: nat, later: nat)
    requires
        k >= 1,
        s.batch_count(state, k) == 0,
    ensures
        s.batch_state(state, k) == CursorState::Exhausted,
        s.batch_count(CursorState::Exhausted, later) == 0,
        later >= 1 ==> s.batch_state(CursorState::Exhausted, later) == CursorState::Exhausted,
{
}

/// A batch yields no more rows than were asked for.
pub proof fn lemma_batch_count_bounded(s: SourceModel, state: CursorState, k: nat)
    ensures
        s.batch_count(state, k) <= k,
    decreases k,
{
    if k > 0 && s.produces(state) {
        lemma_batch_count_bounded(s, s.next_state(state), (k - 1) as nat);
    }
}

/// Consecutive records of a compound lie its declared size apart, whatever
/// its fields cover, and a projection reads each record where the full type
/// does.
pub proof fn lemma_stride_is_declared_size(
    s: SourceModel,
    fields: Seq<FieldModel>,
    size: nat,
    indices: Seq<u64>,
    r: nat,
)
    requires
        s.dtype == TypeModel::Compound(fields, size),
    ensures
        s.stride() == size,
        s.row(r) == s.data.subrange((r * size) as int, (r * size + size) as int),
        (SourceModel { dtype: project(s.dtype, indices), ..s }).row(r) == s.row(r),
{
}

proof fn lemma_row_within(r: nat, rows: nat, stride: nat)
    requires
        r < rows,
    ensures
        r * stride + stride <= rows * stride,
{
    assert(r * stride + stride <= rows * stride) by (nonlinear_arith)
        requires
            r < rows,
    ;
}

proof fn lemma_row_index(r: nat, rows: nat, stride: nat)
    ensures
        r * stride < rows * stride <==> (r < rows && stride > 0),
{
    assert(r * stride < rows * stride <==> (r < rows && stride > 0)) by (nonlinear_arith);
}

/// A dataset that was found valid: a record type, the bytes of its records,
/// the payload area that variable-length values point into, and the order of
/// the bytes of scalars.
pub struct Hdf5ReadBindData {
    dtype: TypeDescriptor,
    data: Vec<u8>,
    heap: Vec<u8>,
    order: ByteOrder,
    rows: usize,
}

impl View for Hdf5ReadBindData {
    type V = SourceModel;

    closed spec fn view(&self) -> SourceModel {
        SourceModel { dtype: self.dtype@, data: self.data@, heap: self.heap@, order: self.order }
    }
}

impl Hdf5ReadBindData {
    #[verifier::type_invariant]
    spec fn inv(&self) -> bool {
        &&& self@.valid()
        &&& self.rows * self@.stride() == self.data.len()
        &&& self@.stride() == 0 ==> self.rows == 0
    }

    /// Takes a dataset over if it is valid.
    pub fn new(dtype: TypeDescriptor, data: Vec<u8>, heap: Vec<u8>, order: ByteOrder) -> (source:
        Result<Self, Error>)
        ensures
            match source {
                Ok(s) => s@ == (SourceModel { dtype: dtype@, data: data@, heap: heap@, order })
                    && s@.valid(),
                Err(e) => !(SourceModel { dtype: dtype@, data: data@, heap: heap@, order }).valid()
                    && (e == Error::UnsupportedType <==> !dtype@.wf()),
            },
    {
        let ghost model = SourceModel { dtype: dtype@, data: data@, heap: heap@, order };
        if !dtype.is_well_formed() {
            return Err(Error::UnsupportedType);
        }
        proof {
            lemma_wf_sized(dtype@);
        }
        let stride = dtype.size();
        if stride == 0 {
            if data.len() != 0 {
                return Err(Error::Source);
            }
            assert forall|r: nat| #[trigger] model.has_row(r) implies false by {
                assert(r * 0 == 0) by (nonlinear_arith);
            }
            return Ok(Hdf5ReadBindData { dtype, data, heap, order, rows: 0 });
        }
        let rows = data.len() / stride;
        proof {
            vstd::arithmetic::div_mod::lemma_fundamental_div_mod(data.len() as int, stride as int);
            assert(stride * rows == rows * stride) by (nonlinear_arith);
        }
        if data.len() % stride != 0 {
            proof {
                let r = rows as nat;
                assert(model.has_row(r));
                assert((r + 1) * stride == r * stride + stride) by (nonlinear_arith);
            }
            return Err(Error::Source);
        }
        let mut r: usize = 0;
        let mut start: usize = 0;
        while r < rows
            invariant
                r <= rows,
                start == r * stride,
                stride > 0,
                stride == dtype@.size(),
                dtype@.wf(),
                rows * stride == data.len(),
                model == (SourceModel { dtype: dtype@, data: data@, heap: heap@, order }),
                forall|q: nat|
                    q < r ==> decodable(
                        dtype@,
                        #[trigger] model.row(q),
                        heap@.len(),
                        order,
                    ),
            decreases rows - r,
        {
            proof {
                lemma_row_within(r as nat, rows as nat, stride as nat);
                lemma_row_index(r as nat, rows as nat, stride as nat);
            }
            let record = vstd::slice::slice_subrange(data.as_slice(), start, start + stride);
            assert(record@ == model.row(r as nat));
            if !can_decode(&dtype, record, heap.len(), order) {
                assert(model.has_row(r as nat));
                return Err(Error::Source);
            }
            assert((r + 1) * stride == r * stride + stride) by (nonlinear_arith);
            start += stride;
            r += 1;
        }
        assert forall|q: nat| #[trigger] model.has_row(q) implies q * model.stride()
            + model.stride() <= model.data.len() && decodable(
            model.dtype,
            model.row(q),
            model.heap.len(),
            model.order,
        ) by {
            lemma_row_index(q, rows as nat, stride as nat);
            lemma_row_within(q, rows as nat, stride as nat);
        }
        Ok(Hdf5ReadBindData { dtype, data, heap, order, rows })
    }

    /// The record type.
    pub fn dtype(&self) -> (dtype: &TypeDescriptor)
        ensures
            dtype@ == self@.dtype,
            self@.valid(),
    {
        proof {
            use_type_invariant(self);
        }
        &self.dtype
    }

    /// Number of records.
    pub fn num_rows(&self) -> (rows: usize)
        ensures
            forall|r: nat| self@.has_row(r) <==> r < rows,
    {
        proof {
            use_type_invariant(self);
            assert forall|r: nat| self@.has_row(r) <==> r < self.rows by {
                lemma_row_index(r, self.rows as nat, self@.stride());
            }
        }
        self.rows
    }

    /// The output columns of the dataset, in order.
    pub fn iter_dtype(&self) -> (columns: Vec<Column>)
        ensures
            columns_model(columns) == self@.dtype.columns(),
    {
        iter_dtype(&self.dtype)
    }

    /// Whether `indices` may be requested of this dataset.
    pub fn can_select(&self, indices: &[u64]) -> (ok: bool)
        ensures
            ok == selectable(self@.dtype, indices@),
    {
        can_select(&self.dtype, indices)
    }

    /// The record type reduced to the requested columns.
    pub fn project_dtype(&self, indices: &[u64]) -> (projected: TypeDescriptor)
        requires
            selectable(self@.dtype, indices@),
        ensures
            projected@ == project(self@.dtype, indices@),
            projection_of(projected@, self@.dtype),
    {
        proof {
            lemma_project_is_projection(self@.dtype, indices@);
        }
        project_dtype(&self.dtype, indices)
    }

    /// Decodes the record at position `index`, as `dtype` describes it, into
    /// row slot 0 of `output` and sets the row count to 1. Where no record
    /// starts at `index`, sets the row count to 0.
    pub fn fill(&self, index: usize, dtype: &TypeDescriptor, output: &mut DataChunk)
        requires
            projection_of(dtype@, self@.dtype),
            has_columns(dtype@, 0, old(output)@.columns.len() as int),
            1 <= old(output)@.capacity,
        ensures
            final(output)@ == self@.fill_row(index as nat, dtype@, old(output)@),
            final(output)@.columns.len() == old(output)@.columns.len(),
            final(output)@.capacity == old(output)@.capacity,
    {
        proof {
            use_type_invariant(self);
            lemma_row_index(index as nat, self.rows as nat, self@.stride());
        }
        if index >= self.rows {
            output.set_len(0);
        } else {
            self.fill_slot(index, dtype, output, 0);
            output.set_len(1);
        }
    }

    /// Decodes the record at position `index` into row slot `row`.
    fn fill_slot(&self, index: usize, dtype: &TypeDescriptor, output: &mut DataChunk, row: usize)
        requires
            self@.has_row(index as nat),
            projection_of(dtype@, self@.dtype),
            has_columns(dtype@, 0, old(output)@.columns.len() as int),
            row < old(output)@.capacity,
        ensures
            final(output)@ == decode(
                dtype@,
                self@.row(index as nat),
                self@.heap,
                self@.order,
                old(output)@,
                0,
                row as int,
            ),
            final(output)@.columns.len() == old(output)@.columns.len(),
            final(output)@.capacity == old(output)@.capacity,
            final(output)@.len == old(output)@.len,
    {
        proof {
            use_type_invariant(self);
            lemma_row_index(index as nat, self.rows as nat, self@.stride());
            lemma_row_within(index as nat, self.rows as nat, self@.stride());
            assert(index * self@.stride() <= index * self@.stride() + self@.stride());
            lemma_wf_sized(self.dtype@);
        }
        let stride = self.dtype.size();
        let start = index * stride;
        let record = vstd::slice::slice_subrange(self.data.as_slice(), start, start + stride);
        proof {
            assert(record@ == self@.row(index as nat));
            lemma_projection_decodable(
                dtype@,
                self@.dtype,
                record@,
                self@.heap.len(),
                self@.order,
            );
        }
        fill(dtype, record, self.heap.as_slice(), self.order, output, 0, row);
    }
}

/// Mathematical model of a [`RowCursor`].
pub struct CursorModel {
    pub source: SourceModel,
    pub dtype: TypeModel,
    pub state: CursorState,
}

/// A pass over the records of a dataset, one after the other, that decodes
/// the columns that were asked for. It cannot be rewound.
pub struct RowCursor<'a> {
    source: &'a Hdf5ReadBindData,
    dtype: TypeDescriptor,
    state: CursorState,
}

impl<'a> View for RowCursor<'a> {
    type V = CursorModel;

    closed spec fn view(&self) -> CursorModel {
        CursorModel { source: self.source@, dtype: self.dtype@, state: self.state }
    }
}

impl Hdf5ReadBindData {
    /// Starts a pass over the records that decodes the requested columns.
    pub fn begin_scan<'a>(&'a self, indices: &[u64]) -> (cursor: RowCursor<'a>)
        requires
            selectable(self@.dtype, indices@),
        ensures
            cursor@ == (CursorModel {
                source: self@,
                dtype: project(self@.dtype, indices@),
                state: CursorState::Active(0),
            }),
    {
        let dtype = self.project_dtype(indices);
        RowCursor { source: self, dtype, state: CursorState::Active(0) }
    }

    /// Decodes the record at the next position of a shared scan into row slot
    /// 0 of `output` and sets the row count to 1, or to 0 where the position
    /// is past the last record. The position is taken from `init`, and no
    /// other caller gets the same.
    pub fn pull(&self, init: &Hdf5ReadInitData, output: &mut DataChunk)
        requires
            projection_of(init@, self@.dtype),
            has_columns(init@, 0, old(output)@.columns.len() as int),
            1 <= old(output)@.capacity,
        ensures
            exists|index: nat| final(output)@ == self@.fill_row(index, init@, old(output)@),
            final(output)@.columns.len() == old(output)@.columns.len(),
            final(output)@.capacity == old(output)@.capacity,
    {
        let index = init.claim();
        self.fill(index, init.dtype(), output);
        assert(output@ == self@.fill_row(index as nat, init@, old(output)@));
    }
}

impl<'a> RowCursor<'a> {
    #[verifier::type_invariant]
    spec fn inv(&self) -> bool {
        projection_of(self.dtype@, self.source@.dtype)
    }

    /// The record type reduced to the columns of this pass.
    pub fn dtype(&self) -> (dtype: &TypeDescriptor)
        ensures
            dtype@ == self@.dtype,
    {
        &self.dtype
    }

    /// Where the cursor stands.
    pub fn state(&self) -> (state: CursorState)
        ensures
            state == self@.state,
    {
        self.state
    }

    /// Decodes the next record into row slot 0 of `output` and returns 1, or
    /// returns 0 at the end of the data. The row count of `output` is set to
    /// what is returned.
    pub fn next(&mut self, output: &mut DataChunk) -> (produced: usize)
        requires
            has_columns(old(self)@.dtype, 0, old(output)@.columns.len() as int),
            1 <= old(output)@.capacity,
        ensures
            final(self)@ == (CursorModel {
                state: old(self)@.source.next_state(old(self)@.state),
                ..old(self)@
            }),
            produced == if old(self)@.source.produces(old(self)@.state) {
                1usize
            } else {
                0usize
            },
            final(output)@ == old(self)@.source.next_chunk(
                old(self)@.state,
                old(self)@.dtype,
                old(output)@,
            ),
            final(output)@.columns.len() == old(output)@.columns.len(),
            final(output)@.capacity == old(output)@.capacity,
    {
        proof {
            use_type_invariant(&*self);
        }
        match self.state {
            CursorState::Exhausted => {
                output.set_len(0);
                0
            },
            CursorState::Active(position) => {
                let rows = self.source.num_rows();
                self.source.fill(position, &self.dtype, output);
                if position < rows {
                    self.state = CursorState::Active(position + 1);
                    1
                } else {
                    self.state = CursorState::Exhausted;
                    0
                }
            },
        }
    }

    /// Decodes up to `max_rows` records into the row slots of `output` from
    /// slot 0 on, stops early at the end of the data, and returns how many
    /// there were. The row count of `output` is set to what is returned.
    pub fn next_batch(&mut self, max_rows: usize, output: &mut DataChunk) -> (produced: usize)
        requires
            has_columns(old(self)@.dtype, 0, old(output)@.columns.len() as int),
            max_rows <= old(output)@.capacity,
        ensures
            final(self)@ == (CursorModel {
                state: old(self)@.source.batch_state(old(self)@.state, max_rows as nat),
                ..old(self)@
            }),
            produced == old(self)@.source.batch_count(old(self)@.state, max_rows as nat),
            produced <= max_rows,
            final(output)@ == old(self)@.source.batch_chunk(
                old(self)@.state,
                old(self)@.dtype,
                old(output)@,
                max_rows as nat,
                0,
            ).with_len(produced as nat),
            final(output)@.columns.len() == old(output)@.columns.len(),
            final(output)@.capacity == old(output)@.capacity,
    {
        proof {
            use_type_invariant(&*self);
        }
        let ghost s = self@.source;
        let ghost d = self@.dtype;
        let ghost first = self@.state;
        let rows = self.source.num_rows();
        let mut produced: usize = 0;
        let mut more = true;
        while produced < max_rows && more
            invariant
                produced <= max_rows <= old(output)@.capacity,
                self@.source == s,
                self@.dtype == d,
                s == old(self)@.source,
                d == old(self)@.dtype,
                first == old(self)@.state,
                projection_of(d, s.dtype),
                forall|r: nat| s.has_row(r) <==> r < rows,
                has_columns(d, 0, output@.columns.len() as int),
                output@.columns.len() == old(output)@.columns.len(),
                output@.capacity == old(output)@.capacity,
                output@.len == old(output)@.len,
                s.batch_count(first, max_rows as nat) == produced + (if more {
                    s.batch_count(self@.state, (max_rows - produced) as nat)
                } else {
                    0
                }),
                s.batch_state(first, max_rows as nat) == (if more {
                    s.batch_state(self@.state, (max_rows - produced) as nat)
                } else {
                    self@.state
                }),
                s.batch_chunk(first, d, old(output)@, max_rows as nat, 0) == (if more {
                    s.batch_chunk(
                        self@.state,
                        d,
                        output@,
                        (max_rows - produced) as nat,
                        produced as int,
                    )
                } else {
                    output@
                }),
            decreases max_rows - produced, (if more { 1nat } else { 0nat }),
        {
            match self.state {
                CursorState::Active(position) => {
                    if position < rows {
                        self.source.fill_slot(position, &self.dtype, output, produced);
                        self.state = CursorState::Active(position + 1);
                        produced += 1;
                    } else {
                        self.state = CursorState::Exhausted;
                        more = false;
                    }
                },
                CursorState::Exhausted => {
                    more = false;
                },
            }
        }
        output.set_len(produced);
        produced
    }
}

} // verus!
