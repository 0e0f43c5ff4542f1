use crate::bytes::ByteOrder;
use crate::chunk::ChunkModel;
use crate::decode::{decodable, decode, leaf_value, lemma_decode_flat, payloads_fit};
use crate::descriptor::{
    fields_model, CompoundField, CompoundType, FieldModel, TypeDescriptor, TypeModel,
};
use vstd::prelude::*;

verus! {

/// Whether `indices` may be requested of `d`: if `d` is a compound, each index
/// names one of its fields.
pub open spec fn selectable(d: TypeModel, indices: Seq<u64>) -> bool {
    d matches TypeModel::Compound(fields, _) ==> forall|k: int|
        0 <= k < indices.len() ==> (#[trigger] indices[k]) < fields.len()
}

/// The descriptor reduced to the requested columns. Of a compound, the fields
/// at `indices` in the order given, each with its own offset and type, under
/// the unchanged declared size; any other descriptor as it is.
pub open spec fn project(d: TypeModel, indices: Seq<u64>) -> TypeModel {
    match d {
        TypeModel::Compound(fields, size) => TypeModel::Compound(
            Seq::new(indices.len(), |k: int| fields[indices[k] as int]),
            size,
        ),
        _ => d,
    }
}

/// Decides [`selectable`].
pub fn can_select(dtype: &TypeDescriptor, indices: &[u64]) -> (ok: bool)
    ensures
        ok == selectable(dtype@, indices@),
{
    match dtype {
        TypeDescriptor::Compound(c) => {
            assert(fields_model(c.fields).len() == c.fields.len());
            let mut k: usize = 0;
            while k < indices.len()
                invariant
                    k <= indices.len(),
                    dtype@ == TypeModel::Compound(fields_model(c.fields), c.size as nat),
                    forall|j: int| 0 <= j < k ==> (#[trigger] indices[j]) < c.fields.len(),
                decreases indices.len() - k,
            {
                if indices[k] >= c.fields.len() as u64 {
                    assert(indices@[k as int] >= c.fields.len());
                    return false;
                }
                k += 1;
            }
            true
        },
        _ => true,
    }
}

/// Reduces `dtype` to the requested columns.
pub fn project_dtype(dtype: &TypeDescriptor, indices: &[u64]) -> (projected: TypeDescriptor)
    requires
        selectable(dtype@, indices@),
    ensures
        projected@ == project(dtype@, indices@),
{
    match dtype {
        TypeDescriptor::Compound(c) => {
            let ghost model = fields_model(c.fields);
            let mut fields: Vec<CompoundField> = Vec::new();
            let mut k: usize = 0;
            while k < indices.len()
                invariant
                    k <= indices.len(),
                    fields.len() == k,
                    model == fields_model(c.fields),
                    selectable(TypeModel::Compound(model, c.size as nat), indices@),
                    forall|j: int|
                        0 <= j < k ==> (#[trigger] fields[j]).model() == model[indices[j] as int],
                decreases indices.len() - k,
            {
                let i = indices[k] as usize;
                assert(model[i as int] == c.fields[i as int].model());
                fields.push(c.fields[i].clone());
                k += 1;
            }
            assert(fields_model(fields) =~= Seq::new(
                indices@.len(),
                |k: int| model[indices@[k] as int],
            ));
            TypeDescriptor::Compound(CompoundType { fields, size: c.size })
        },
        _ => dtype.clone(),
    }
}

/// Projection leaves the in-line size, and so the distance between records,
/// as it was.
pub proof fn lemma_project_keeps_size(d: TypeModel, indices: Seq<u64>)
    ensures
        project(d, indices).size() == d.size(),
{
}

/// Each field of a projected compound is the field of the full compound that
/// its index names: name, type and offset are those it has there.
pub proof fn lemma_project_keeps_fields(
    fields: Seq<FieldModel>,
    size: nat,
    indices: Seq<u64>,
    k: int,
)
    requires
        0 <= k < indices.len(),
    ensures
        project(TypeModel::Compound(fields, size), indices) matches TypeModel::Compound(kept, _)
            && kept.len() == indices.len() && kept[k] == fields[indices[k] as int],
{
}

/// Projection of a well-formed descriptor is well formed.
pub proof fn lemma_project_wf(d: TypeModel, indices: Seq<u64>)
    requires
        d.wf(),
        selectable(d, indices),
    ensures
        project(d, indices).wf(),
{
}

/// After projection, the column at position `k` holds the field that
/// `indices[k]` names, read at the offset that this field has in the full
/// compound, not at the one that its place in the reduced list would suggest.
pub proof fn lemma_projected_column(
    fields: Seq<FieldModel>,
    size: nat,
    indices: Seq<u64>,
    src: Seq<u8>,
    heap: Seq<u8>,
    order: ByteOrder,
    chunk: ChunkModel,
    column: int,
    row: int,
    k: int,
)
    requires
        selectable(TypeModel::Compound(fields, size), indices),
        forall|j: int|
            0 <= j < indices.len() ==> !(fields[(#[trigger] indices[j]) as int].ty is Compound),
        chunk.wf(),
        0 <= column,
        column + indices.len() <= chunk.columns.len(),
        0 <= row < chunk.capacity,
        0 <= k < indices.len(),
    ensures
        decode(
            project(TypeModel::Compound(fields, size), indices),
            src,
            heap,
            order,
            chunk,
            column,
            row,
        ).columns[column + k][row] == leaf_value(
            fields[indices[k] as int].ty,
            src.skip(fields[indices[k] as int].offset as int),
            heap,
            order,
        ),
{
    let kept = Seq::new(indices.len(), |j: int| fields[indices[j] as int]);
    assert forall|j: int| 0 <= j < kept.len() implies !((#[trigger] kept[j]).ty is Compound) by {
        assert(kept[j] == fields[indices[j] as int]);
    }
    lemma_decode_flat(kept, src, heap, order, chunk, column, row, kept.len(), k);
}

/// Whether `p` describes a choice of the top-level columns of `d`: it is `d`
/// itself, or both are compounds of one declared size and each field of `p`
/// is a field of `d`.
pub open spec fn projection_of(p: TypeModel, d: TypeModel) -> bool {
    ||| p == d
    ||| {
        &&& p matches TypeModel::Compound(kept, kept_size)
        &&& d matches TypeModel::Compound(fields, size)
        &&& kept_size == size
        &&& forall|k: int| 0 <= k < kept.len() ==> fields.contains(#[trigger] kept[k])
    }
}

/// What [`project`] returns is a projection of its argument.
pub proof fn lemma_project_is_projection(d: TypeModel, indices: Seq<u64>)
    requires
        selectable(d, indices),
    ensures
        projection_of(project(d, indices), d),
{
    if let TypeModel::Compound(fields, size) = d {
        let kept = Seq::new(indices.len(), |k: int| fields[indices[k] as int]);
        assert forall|k: int| 0 <= k < kept.len() implies fields.contains(#[trigger] kept[k]) by {
            assert(fields[indices[k] as int] == kept[k]);
        }
    }
}

/// Bytes from which a well-formed descriptor can be decoded can be decoded
/// under each of its projections too, and a projection is as well formed and
/// as large as the descriptor it was taken from.
pub proof fn lemma_projection_decodable(
    p: TypeModel,
    d: TypeModel,
    src: Seq<u8>,
    heap_len: nat,
    order: ByteOrder,
)
    requires
        projection_of(p, d),
        d.wf(),
        decodable(d, src, heap_len, order),
    ensures
        p.wf(),
        p.size() == d.size(),
        decodable(p, src, heap_len, order),
{
    if p != d {
        let kept = p->Compound_0;
        let fields = d->Compound_0;
        let size = d->Compound_1;
        assert forall|k: int| 0 <= k < kept.len() implies (#[trigger] kept[k]).ty.wf()
            && kept[k].offset + kept[k].ty.size() <= size && payloads_fit(
            kept[k].ty,
            src.skip(kept[k].offset as int),
            heap_len,
            order,
        ) by {
            let i = choose|i: int| 0 <= i < fields.len() && fields[i] == kept[k];
            assert(fields[i].ty.wf());
        }
    }
}

} // verus!
