use crate::bytes::{
    lemma_range_of_values, read_signed, read_unsigned, signed_value, unsigned_value, ByteOrder,
};
use crate::chunk::{ChunkModel, DataChunk, Value, ValueModel};
use crate::descriptor::{
    fields_model, lemma_wf_sized, CompoundField, FieldModel, FloatSize, IntSize, TypeDescriptor,
    TypeModel, ARRAY_HEADER_WORD, TEXT_HEADER_WORD,
};
use vstd::prelude::*;
use vstd::slice::slice_to_vec;

verus! {

/// The count in the header of the variable-length value at the start of
/// `src`: the number that its first `word` bytes hold.
pub open spec fn header_count(src: Seq<u8>, order: ByteOrder, word: nat) -> nat {
    unsigned_value(src.subrange(0, word as int), order)
}

/// The locator in the header of the variable-length value at the start of
/// `src`: the number that the `word` bytes after the count hold. It is the
/// position at which the payload starts in the payload area.
pub open spec fn header_locator(src: Seq<u8>, order: ByteOrder, word: nat) -> nat {
    unsigned_value(src.subrange(word as int, 2 * word as int), order)
}

/// Whether the payload of the variable-length value at the start of `src`, of
/// `unit` bytes per counted element, lies within a payload area of `heap_len`
/// bytes.
pub open spec fn payload_fits(
    src: Seq<u8>,
    heap_len: nat,
    order: ByteOrder,
    word: nat,
    unit: nat,
) -> bool {
    header_locator(src, order, word) + header_count(src, order, word) * unit <= heap_len
}

/// The payload of the variable-length value at the start of `src`.
pub open spec fn payload(
    src: Seq<u8>,
    heap: Seq<u8>,
    order: ByteOrder,
    word: nat,
    unit: nat,
) -> Seq<u8> {
    heap.subrange(
        header_locator(src, order, word) as int,
        (header_locator(src, order, word) + header_count(src, order, word) * unit) as int,
    )
}

/// The value of a signed integer of the given width at the start of `src`.
pub open spec fn signed_scalar(size: IntSize, src: Seq<u8>, order: ByteOrder) -> ValueModel {
    match size {
        IntSize::U1 => ValueModel::Int8(signed_value(src.take(1), order) as i8),
        IntSize::U2 => ValueModel::Int16(signed_value(src.take(2), order) as i16),
        IntSize::U4 => ValueModel::Int32(signed_value(src.take(4), order) as i32),
        IntSize::U8 => ValueModel::Int64(signed_value(src.take(8), order) as i64),
    }
}

/// The value of an unsigned integer of the given width at the start of `src`.
pub open spec fn unsigned_scalar(size: IntSize, src: Seq<u8>, order: ByteOrder) -> ValueModel {
    match size {
        IntSize::U1 => ValueModel::UInt8(unsigned_value(src.take(1), order) as u8),
        IntSize::U2 => ValueModel::UInt16(unsigned_value(src.take(2), order) as u16),
        IntSize::U4 => ValueModel::UInt32(unsigned_value(src.take(4), order) as u32),
        IntSize::U8 => ValueModel::UInt64(unsigned_value(src.take(8), order) as u64),
    }
}

/// The value that a descriptor other than a compound gives to the bytes at
/// the start of `src`. Payloads of variable-length values are taken from
/// `heap`.
pub open spec fn leaf_value(d: TypeModel, src: Seq<u8>, heap: Seq<u8>, order: ByteOrder) -> ValueModel {
    match d {
        TypeModel::Integer(s) => signed_scalar(s, src, order),
        TypeModel::Unsigned(s) => unsigned_scalar(s, src, order),
        TypeModel::Enum(e) => if e.signed {
            signed_scalar(e.size, src, order)
        } else {
            unsigned_scalar(e.size, src, order)
        },
        TypeModel::Float(FloatSize::U4) => ValueModel::Float32(
            unsigned_value(src.take(4), order) as u32,
        ),
        TypeModel::Float(FloatSize::U8) => ValueModel::Float64(
            unsigned_value(src.take(8), order) as u64,
        ),
        TypeModel::Boolean => ValueModel::Boolean(src[0] != 0),
        TypeModel::FixedArray(ty, len) => ValueModel::Array(src.take((ty.size() * len) as int)),
        TypeModel::FixedAscii(len) => ValueModel::Text(src.take(len as int)),
        TypeModel::FixedUnicode(len) => ValueModel::Text(src.take(len as int)),
        TypeModel::VarLenArray(ty) => ValueModel::List(
            payload(src, heap, order, ARRAY_HEADER_WORD as nat, ty.size()),
        ),
        TypeModel::VarLenAscii => ValueModel::Text(
            payload(src, heap, order, TEXT_HEADER_WORD as nat, 1),
        ),
        TypeModel::VarLenUnicode => ValueModel::Text(
            payload(src, heap, order, TEXT_HEADER_WORD as nat, 1),
        ),
        TypeModel::Reference(size) => ValueModel::Blob(src.take(size as int)),
        TypeModel::Compound(_, _) => ValueModel::Null,
    }
}

/// Whether every variable-length value that decoding `d` at the start of `src`
/// visits has its payload within `heap_len` bytes.
pub open spec fn payloads_fit(d: TypeModel, src: Seq<u8>, heap_len: nat, order: ByteOrder) -> bool
    decreases d,
{
    match d {
        TypeModel::Compound(fields, _) => forall|i: int|
            0 <= i < fields.len() ==> payloads_fit(
                (#[trigger] fields[i]).ty,
                src.skip(fields[i].offset as int),
                heap_len,
                order,
            ),
        TypeModel::VarLenArray(ty) => payload_fits(
            src,
            heap_len,
            order,
            ARRAY_HEADER_WORD as nat,
            ty.size(),
        ),
        TypeModel::VarLenAscii => payload_fits(src, heap_len, order, TEXT_HEADER_WORD as nat, 1),
        TypeModel::VarLenUnicode => payload_fits(src, heap_len, order, TEXT_HEADER_WORD as nat, 1),
        _ => true,
    }
}

/// Whether a value of shape `d` can be decoded from the start of `src`: the
/// bytes of its in-line size are there, and every payload lies in the heap.
pub open spec fn decodable(d: TypeModel, src: Seq<u8>, heap_len: nat, order: ByteOrder) -> bool {
    d.size() <= src.len() && payloads_fit(d, src, heap_len, order)
}

/// Whether the chunk has a column for each field position that decoding `d`
/// into `column` visits.
pub open spec fn has_columns(d: TypeModel, column: int, columns: int) -> bool
    decreases d,
{
    match d {
        TypeModel::Compound(fields, _) => column + fields.len() <= columns && forall|i: int|
            0 <= i < fields.len() ==> has_columns((#[trigger] fields[i]).ty, column + i, columns),
        _ => column < columns,
    }
}

/// The chunk after a value of shape `d` at the start of `src` was decoded
/// into `column` at `row`. A compound sends its field at position `i`, found
/// at that field's own offset from the start of `src`, to `column + i`; any
/// other shape writes one cell.
pub open spec fn decode(
    d: TypeModel,
    src: Seq<u8>,
    heap: Seq<u8>,
    order: ByteOrder,
    chunk: ChunkModel,
    column: int,
    row: int,
) -> ChunkModel
    decreases d,
{
    match d {
        TypeModel::Compound(fields, _) => decode_fields(
            fields,
            src,
            heap,
            order,
            chunk,
            column,
            row,
            fields.len(),
        ),
        _ => chunk.write(column, row, leaf_value(d, src, heap, order)),
    }
}

/// The chunk after the first `n` fields were decoded, in declaration order.
pub open spec fn decode_fields(
    fields: Seq<FieldModel>,
    src: Seq<u8>,
    heap: Seq<u8>,
    order: ByteOrder,
    chunk: ChunkModel,
    column: int,
    row: int,
    n: nat,
) -> ChunkModel
    decreases fields, n,
{
    if n == 0 || n > fields.len() {
        chunk
    } else {
        decode(
            fields[n - 1].ty,
            src.skip(fields[n - 1].offset as int),
            heap,
            order,
            decode_fields(fields, src, heap, order, chunk, column, row, (n - 1) as nat),
            column + n - 1,
            row,
        )
    }
}

/// Decoding changes neither the number of columns nor the number of row
/// slots nor the row count, and leaves the chunk well formed.
pub proof fn lemma_decode_shape(
    d: TypeModel,
    src: Seq<u8>,
    heap: Seq<u8>,
    order: ByteOrder,
    chunk: ChunkModel,
    column: int,
    row: int,
)
    requires
        chunk.wf(),
        0 <= column,
        has_columns(d, column, chunk.columns.len() as int),
        0 <= row < chunk.capacity,
    ensures
        decode(d, src, heap, order, chunk, column, row).columns.len() == chunk.columns.len(),
        decode(d, src, heap, order, chunk, column, row).capacity == chunk.capacity,
        decode(d, src, heap, order, chunk, column, row).len == chunk.len,
        decode(d, src, heap, order, chunk, column, row).wf(),
    decreases d,
{
    match d {
        TypeModel::Compound(fields, _) => {
            lemma_decode_fields_shape(fields, src, heap, order, chunk, column, row, fields.len());
        },
        _ => {},
    }
}

/// [`lemma_decode_shape`] for the first `n` fields of a compound.
pub proof fn lemma_decode_fields_shape(
    fields: Seq<FieldModel>,
    src: Seq<u8>,
    heap: Seq<u8>,
    order: ByteOrder,
    chunk: ChunkModel,
    column: int,
    row: int,
    n: nat,
)
    requires
        chunk.wf(),
        0 <= column,
        forall|i: int|
            0 <= i < fields.len() ==> has_columns(
                (#[trigger] fields[i]).ty,
                column + i,
                chunk.columns.len() as int,
            ),
        0 <= row < chunk.capacity,
    ensures
        decode_fields(fields, src, heap, order, chunk, column, row, n).columns.len()
            == chunk.columns.len(),
        decode_fields(fields, src, heap, order, chunk, column, row, n).capacity == chunk.capacity,
        decode_fields(fields, src, heap, order, chunk, column, row, n).len == chunk.len,
        decode_fields(fields, src, heap, order, chunk, column, row, n).wf(),
    decreases fields, n,
{
    if n != 0 && n <= fields.len() {
        let before = decode_fields(fields, src, heap, order, chunk, column, row, (n - 1) as nat);
        lemma_decode_fields_shape(fields, src, heap, order, chunk, column, row, (n - 1) as nat);
        lemma_decode_shape(
            fields[n - 1].ty,
            src.skip(fields[n - 1].offset as int),
            heap,
            order,
            before,
            column + n - 1,
            row,
        );
    }
}

/// Decoding into `column` at `row` changes no cell of another row slot and
/// no cell of a column before `column`.
pub proof fn lemma_decode_frame(
    d: TypeModel,
    src: Seq<u8>,
    heap: Seq<u8>,
    order: ByteOrder,
    chunk: ChunkModel,
    column: int,
    row: int,
    c: int,
    r: int,
)
    requires
        chunk.wf(),
        0 <= column,
        has_columns(d, column, chunk.columns.len() as int),
        0 <= row < chunk.capacity,
        0 <= c < chunk.columns.len(),
        0 <= r < chunk.capacity,
        c < column || r != row,
    ensures
        decode(d, src, heap, order, chunk, column, row).columns[c][r] == chunk.columns[c][r],
    decreases d,
{
    match d {
        TypeModel::Compound(fields, _) => {
            lemma_decode_fields_frame(
                fields,
                src,
                heap,
                order,
                chunk,
                column,
                row,
                fields.len(),
                c,
                r,
            );
        },
        _ => {},
    }
}

/// [`lemma_decode_frame`] for the first `n` fields of a compound.
pub proof fn lemma_decode_fields_frame(
    fields: Seq<FieldModel>,
    src: Seq<u8>,
    heap: Seq<u8>,
    order: ByteOrder,
    chunk: ChunkModel,
    column: int,
    row: int,
    n: nat,
    c: int,
    r: int,
)
    requires
        chunk.wf(),
        0 <= column,
        n <= fields.len(),
        forall|i: int|
            0 <= i < fields.len() ==> has_columns(
                (#[trigger] fields[i]).ty,
                column + i,
                chunk.columns.len() as int,
            ),
        0 <= row < chunk.capacity,
        0 <= c < chunk.columns.len(),
        0 <= r < chunk.capacity,
        c < column || r != row,
    ensures
        decode_fields(fields, src, heap, order, chunk, column, row, n).columns[c][r]
            == chunk.columns[c][r],
    decreases fields, n,
{
    if n != 0 {
        let before = decode_fields(fields, src, heap, order, chunk, column, row, (n - 1) as nat);
        lemma_decode_fields_shape(fields, src, heap, order, chunk, column, row, (n - 1) as nat);
        lemma_decode_fields_frame(
            fields,
            src,
            heap,
            order,
            chunk,
            column,
            row,
            (n - 1) as nat,
            c,
            r,
        );
        lemma_decode_frame(
            fields[n - 1].ty,
            src.skip(fields[n - 1].offset as int),
            heap,
            order,
            before,
            column + n - 1,
            row,
            c,
            r,
        );
    }
}

/// Of a compound whose fields are no compounds, decoding the first `n`
/// fields leaves in column `column + k`, for each `k` below `n`, the value of
/// field `k` read at that field's own offset.
pub proof fn lemma_decode_flat(
    fields: Seq<FieldModel>,
    src: Seq<u8>,
    heap: Seq<u8>,
    order: ByteOrder,
    chunk: ChunkModel,
    column: int,
    row: int,
    n: nat,
    k: int,
)
    requires
        chunk.wf(),
        0 <= column,
        column + fields.len() <= chunk.columns.len(),
        0 <= row < chunk.capacity,
        n <= fields.len(),
        0 <= k < n,
        forall|i: int| 0 <= i < fields.len() ==> !((#[trigger] fields[i]).ty is Compound),
    ensures
        decode_fields(fields, src, heap, order, chunk, column, row, n).columns[column + k][row]
            == leaf_value(fields[k].ty, src.skip(fields[k].offset as int), heap, order),
    decreases n,
{
    assert forall|i: int| 0 <= i < fields.len() implies has_columns(
        (#[trigger] fields[i]).ty,
        column + i,
        chunk.columns.len() as int,
    ) by {
        assert(!(fields[i].ty is Compound));
    }
    let before = decode_fields(fields, src, heap, order, chunk, column, row, (n - 1) as nat);
    lemma_decode_fields_shape(fields, src, heap, order, chunk, column, row, (n - 1) as nat);
    let last = fields[n - 1];
    assert(!(last.ty is Compound));
    let value = leaf_value(last.ty, src.skip(last.offset as int), heap, order);
    assert(decode_fields(fields, src, heap, order, chunk, column, row, n) == decode(
        last.ty,
        src.skip(last.offset as int),
        heap,
        order,
        before,
        column + n - 1,
        row,
    ));
    assert(decode(last.ty, src.skip(last.offset as int), heap, order, before, column + n - 1, row)
        == before.write(column + n - 1, row, value));
    if k < n - 1 {
        lemma_decode_flat(fields, src, heap, order, chunk, column, row, (n - 1) as nat, k);
    }
}

/// Finds the payload of the variable-length value at the start of `slice`:
/// where it starts in the payload area and how many bytes it has, or `None`
/// if it does not lie within `heap_len` bytes.
fn locate_payload(slice: &[u8], heap_len: usize, order: ByteOrder, word: usize, unit: usize) -> (span:
    Option<(usize, usize)>)
    requires
        word <= 8,
        slice.len() >= 2 * word,
    ensures
        span is Some <==> payload_fits(slice@, heap_len as nat, order, word as nat, unit as nat),
        span matches Some((start, len)) ==> start == header_locator(slice@, order, word as nat)
            && len == header_count(slice@, order, word as nat) * unit,
{
    let count = read_unsigned(slice, word, order);
    let locator = read_unsigned(&slice[word..2 * word], word, order);
    assert(slice@.subrange(word as int, 2 * word).take(word as int) =~= slice@.subrange(
        word as int,
        2 * word,
    ));
    assert(slice@.take(word as int) =~= slice@.subrange(0, word as int));
    let bytes = match count.checked_mul(unit as u64) {
        Some(bytes) => bytes,
        None => {
            return None;
        },
    };
    let end = match locator.checked_add(bytes) {
        Some(end) => end,
        None => {
            return None;
        },
    };
    if end > heap_len as u64 {
        return None;
    }
    Some((locator as usize, bytes as usize))
}

/// Decodes a value that is not a compound.
fn decode_leaf(dtype: &TypeDescriptor, slice: &[u8], heap: &[u8], order: ByteOrder) -> (value:
    Value)
    requires
        dtype@.wf(),
        !(dtype@ is Compound),
        decodable(dtype@, slice@, heap@.len(), order),
    ensures
        value@ == leaf_value(dtype@, slice@, heap@, order),
{
    proof {
        lemma_range_of_values();
        lemma_wf_sized(dtype@);
        if let TypeModel::VarLenArray(ty) = dtype@ {
            lemma_wf_sized(*ty);
        }
    }
    match dtype {
        TypeDescriptor::Integer(s) => decode_signed(*s, slice, order),
        TypeDescriptor::Unsigned(s) => decode_unsigned(*s, slice, order),
        TypeDescriptor::Enum(e) => if e.signed {
            decode_signed(e.size, slice, order)
        } else {
            decode_unsigned(e.size, slice, order)
        },
        TypeDescriptor::Float(FloatSize::U4) => Value::Float32(
            read_unsigned(slice, 4, order) as u32,
        ),
        TypeDescriptor::Float(FloatSize::U8) => Value::Float64(read_unsigned(slice, 8, order)),
        TypeDescriptor::Boolean => Value::Boolean(slice[0] != 0),
        TypeDescriptor::FixedArray(ty, len) => {
            let n = ty.size() * *len;
            Value::Array(slice_to_vec(&slice[0..n]))
        },
        TypeDescriptor::FixedAscii(len) => Value::Text(slice_to_vec(&slice[0..*len])),
        TypeDescriptor::FixedUnicode(len) => Value::Text(slice_to_vec(&slice[0..*len])),
        TypeDescriptor::VarLenArray(ty) => Value::List(
            copy_payload(slice, heap, order, ARRAY_HEADER_WORD, ty.size()),
        ),
        TypeDescriptor::VarLenAscii => Value::Text(
            copy_payload(slice, heap, order, TEXT_HEADER_WORD, 1),
        ),
        TypeDescriptor::VarLenUnicode => Value::Text(
            copy_payload(slice, heap, order, TEXT_HEADER_WORD, 1),
        ),
        TypeDescriptor::Reference(size) => Value::Blob(slice_to_vec(&slice[0..*size])),
        TypeDescriptor::Compound(_) => Value::Null,
    }
}

fn decode_signed(size: IntSize, slice: &[u8], order: ByteOrder) -> (value: Value)
    requires
        size.spec_bytes() <= slice.len(),
    ensures
        value@ == signed_scalar(size, slice@, order),
{
    proof {
        lemma_range_of_values();
    }
    match size {
        IntSize::U1 => Value::Int8(read_signed(slice, 1, order) as i8),
        IntSize::U2 => Value::Int16(read_signed(slice, 2, order) as i16),
        IntSize::U4 => Value::Int32(read_signed(slice, 4, order) as i32),
        IntSize::U8 => Value::Int64(read_signed(slice, 8, order)),
    }
}

fn decode_unsigned(size: IntSize, slice: &[u8], order: ByteOrder) -> (value: Value)
    requires
        size.spec_bytes() <= slice.len(),
    ensures
        value@ == unsigned_scalar(size, slice@, order),
{
    proof {
        lemma_range_of_values();
    }
    match size {
        IntSize::U1 => Value::UInt8(read_unsigned(slice, 1, order) as u8),
        IntSize::U2 => Value::UInt16(read_unsigned(slice, 2, order) as u16),
        IntSize::U4 => Value::UInt32(read_unsigned(slice, 4, order) as u32),
        IntSize::U8 => Value::UInt64(read_unsigned(slice, 8, order)),
    }
}

fn copy_payload(slice: &[u8], heap: &[u8], order: ByteOrder, word: usize, unit: usize) -> (bytes:
    Vec<u8>)
    requires
        word <= 8,
        slice.len() >= 2 * word,
        payload_fits(slice@, heap@.len(), order, word as nat, unit as nat),
    ensures
        bytes@ == payload(slice@, heap@, order, word as nat, unit as nat),
{
    match locate_payload(slice, heap.len(), order, word, unit) {
        Some((start, len)) => slice_to_vec(&heap[start..start + len]),
        None => vstd::pervasive::unreached(),
    }
}

fn fill_fields(
    fields: &Vec<CompoundField>,
    size: usize,
    slice: &[u8],
    heap: &[u8],
    order: ByteOrder,
    output: &mut DataChunk,
    idx: usize,
    row: usize,
)
    requires
        TypeModel::Compound(fields_model(*fields), size as nat).wf(),
        decodable(
            TypeModel::Compound(fields_model(*fields), size as nat),
            slice@,
            heap@.len(),
            order,
        ),
        has_columns(
            TypeModel::Compound(fields_model(*fields), size as nat),
            idx as int,
            old(output)@.columns.len() as int,
        ),
        row < old(output)@.capacity,
    ensures
        final(output)@ == decode_fields(
            fields_model(*fields),
            slice@,
            heap@,
            order,
            old(output)@,
            idx as int,
            row as int,
            fields.len() as nat,
        ),
        final(output)@.columns.len() == old(output)@.columns.len(),
        final(output)@.capacity == old(output)@.capacity,
        final(output)@.len == old(output)@.len,
    decreases fields,
{
    let ghost model = fields_model(*fields);
    let columns = output.num_columns();
    let mut i: usize = 0;
    while i < fields.len()
        invariant
            i <= fields.len(),
            model == fields_model(*fields),
            columns == old(output)@.columns.len(),
            TypeModel::Compound(model, size as nat).wf(),
            decodable(TypeModel::Compound(model, size as nat), slice@, heap@.len(), order),
            has_columns(
                TypeModel::Compound(model, size as nat),
                idx as int,
                old(output)@.columns.len() as int,
            ),
            row < old(output)@.capacity,
            output@ == decode_fields(
                model,
                slice@,
                heap@,
                order,
                old(output)@,
                idx as int,
                row as int,
                i as nat,
            ),
            output@.columns.len() == old(output)@.columns.len(),
            output@.capacity == old(output)@.capacity,
            output@.len == old(output)@.len,
        decreases fields.len() - i,
    {
        let field = &fields[i];
        assert(model[i as int] == field.model());
        let rest = &slice[field.offset..slice.len()];
        assert(rest@ == slice@.skip(field.offset as int));
        fill(&field.ty, rest, heap, order, output, idx + i, row);
        i += 1;
    }
}

/// Decodes the value of shape `dtype` at the start of `slice` into `output`,
/// at row slot `row` of column `idx`. Payloads of variable-length values are
/// taken from `heap`.
pub fn fill(
    dtype: &TypeDescriptor,
    slice: &[u8],
    heap: &[u8],
    order: ByteOrder,
    output: &mut DataChunk,
    idx: usize,
    row: usize,
)
    requires
        dtype@.wf(),
        decodable(dtype@, slice@, heap@.len(), order),
        has_columns(dtype@, idx as int, old(output)@.columns.len() as int),
        row < old(output)@.capacity,
    ensures
        final(output)@ == decode(
            dtype@,
            slice@,
            heap@,
            order,
            old(output)@,
            idx as int,
            row as int,
        ),
        final(output)@.columns.len() == old(output)@.columns.len(),
        final(output)@.capacity == old(output)@.capacity,
        final(output)@.len == old(output)@.len,
    decreases dtype,
{
    match dtype {
        TypeDescriptor::Compound(c) => {
            fill_fields(&c.fields, c.size, slice, heap, order, output, idx, row);
        },
        _ => {
            let value = decode_leaf(dtype, slice, heap, order);
            output.write(idx, row, value);
        },
    }
}

fn fields_decodable(
    fields: &Vec<CompoundField>,
    size: usize,
    slice: &[u8],
    heap_len: usize,
    order: ByteOrder,
) -> (ok: bool)
    requires
        TypeModel::Compound(fields_model(*fields), size as nat).wf(),
        size <= slice.len(),
    ensures
        ok == payloads_fit(
            TypeModel::Compound(fields_model(*fields), size as nat),
            slice@,
            heap_len as nat,
            order,
        ),
    decreases fields,
{
    let ghost model = fields_model(*fields);
    let mut i: usize = 0;
    while i < fields.len()
        invariant
            i <= fields.len(),
            model == fields_model(*fields),
            TypeModel::Compound(model, size as nat).wf(),
            size <= slice.len(),
            forall|j: int|
                0 <= j < i ==> payloads_fit(
                    (#[trigger] model[j]).ty,
                    slice@.skip(model[j].offset as int),
                    heap_len as nat,
                    order,
                ),
        decreases fields.len() - i,
    {
        let field = &fields[i];
        assert(model[i as int] == field.model());
        let rest = &slice[field.offset..slice.len()];
        assert(rest@ == slice@.skip(field.offset as int));
        if !payloads_in_heap(&field.ty, rest, heap_len, order) {
            return false;
        }
        i += 1;
    }
    true
}

fn payloads_in_heap(dtype: &TypeDescriptor, slice: &[u8], heap_len: usize, order: ByteOrder) -> (ok:
    bool)
    requires
        dtype@.wf(),
        dtype@.size() <= slice.len(),
    ensures
        ok == payloads_fit(dtype@, slice@, heap_len as nat, order),
    decreases dtype,
{
    proof {
        if let TypeModel::VarLenArray(ty) = dtype@ {
            lemma_wf_sized(*ty);
        }
    }
    match dtype {
        TypeDescriptor::Compound(c) => fields_decodable(&c.fields, c.size, slice, heap_len, order),
        TypeDescriptor::VarLenArray(ty) => locate_payload(
            slice,
            heap_len,
            order,
            ARRAY_HEADER_WORD,
            ty.size(),
        ).is_some(),
        TypeDescriptor::VarLenAscii => locate_payload(
            slice,
            heap_len,
            order,
            TEXT_HEADER_WORD,
            1,
        ).is_some(),
        TypeDescriptor::VarLenUnicode => locate_payload(
            slice,
            heap_len,
            order,
            TEXT_HEADER_WORD,
            1,
        ).is_some(),
        _ => true,
    }
}

/// Decides [`decodable`]: whether [`fill`] can decode a value of shape `dtype`
/// from the start of `slice`, with a payload area of `heap_len` bytes.
pub fn can_decode(dtype: &TypeDescriptor, slice: &[u8], heap_len: usize, order: ByteOrder) -> (ok:
    bool)
    requires
        dtype@.wf(),
    ensures
        ok == decodable(dtype@, slice@, heap_len as nat, order),
{
    proof {
        lemma_wf_sized(dtype@);
    }
    if dtype.size() > slice.len() {
        return false;
    }
    payloads_in_heap(dtype, slice, heap_len, order)
}

fn fields_have_columns(fields: &Vec<CompoundField>, column: usize, columns: usize) -> (ok: bool)
    requires
        column + fields.len() <= columns,
    ensures
        ok == (forall|i: int|
            0 <= i < fields.len() ==> has_columns(
                (#[trigger] fields_model(*fields)[i]).ty,
                column + i,
                columns as int,
            )),
    decreases fields,
{
    let ghost model = fields_model(*fields);
    let mut i: usize = 0;
    while i < fields.len()
        invariant
            i <= fields.len(),
            model == fields_model(*fields),
            column + fields.len() <= columns,
            forall|j: int|
                0 <= j < i ==> has_columns((#[trigger] model[j]).ty, column + j, columns as int),
        decreases fields.len() - i,
    {
        assert(model[i as int] == fields[i as int].model());
        if !columns_suffice(&fields[i].ty, column + i, columns) {
            return false;
        }
        i += 1;
    }
    true
}

/// Decides [`has_columns`]: whether a chunk of `columns` columns has a column
/// for each field position that decoding `dtype` into `column` visits.
pub fn columns_suffice(dtype: &TypeDescriptor, column: usize, columns: usize) -> (ok: bool)
    ensures
        ok == has_columns(dtype@, column as int, columns as int),
    decreases dtype,
{
    match dtype {
        TypeDescriptor::Compound(c) => {
            assert(fields_model(c.fields).len() == c.fields.len());
            match column.checked_add(c.fields.len()) {
                Some(end) => {
                    if end > columns {
                        return false;
                    }
                },
                None => {
                    return false;
                },
            }
            fields_have_columns(&c.fields, column, columns)
        },
        _ => column < columns,
    }
}

} // verus!
