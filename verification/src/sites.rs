use crate::bytes::ByteOrder;
use crate::decode::{payload_fits, payloads_fit};
use crate::descriptor::{
    fields_model, lemma_wf_sized, CompoundField, FieldModel, TypeDescriptor, TypeModel,
    ARRAY_HEADER_WORD, TEXT_HEADER_WORD,
};
use vstd::prelude::*;

verus! {

/// Where the header of a variable-length value lies in a record: `offset`
/// bytes from the record's start, made of two numbers of `word` bytes each,
/// over a payload of `unit` bytes per counted element.
#[derive(Clone, Copy, Debug, PartialEq, Eq, Structural)]
pub struct VarLenSite {
    pub offset: usize,
    pub word: usize,
    pub unit: usize,
}

/// Mathematical model of a [`VarLenSite`].
pub struct SiteModel {
    pub offset: nat,
    pub word: nat,
    pub unit: nat,
}

impl View for VarLenSite {
    type V = SiteModel;

    open spec fn view(&self) -> SiteModel {
        SiteModel { offset: self.offset as nat, word: self.word as nat, unit: self.unit as nat }
    }
}

/// The models of `sites`, in order.
pub open spec fn sites_model(sites: Seq<VarLenSite>) -> Seq<SiteModel> {
    Seq::new(sites.len(), |i: int| sites[i]@)
}

/// The headers that decoding a value of shape `d` reads when the value starts
/// `base` bytes into the record, in the order in which it reads them. Only
/// compounds are entered: what an array holds is not decoded.
pub open spec fn sites(d: TypeModel, base: nat) -> Seq<SiteModel>
    decreases d,
{
    match d {
        TypeModel::Compound(fields, _) => field_sites(fields, base, fields.len()),
        TypeModel::VarLenArray(ty) => seq![
            SiteModel { offset: base, word: ARRAY_HEADER_WORD as nat, unit: ty.size() },
        ],
        TypeModel::VarLenAscii => seq![
            SiteModel { offset: base, word: TEXT_HEADER_WORD as nat, unit: 1 },
        ],
        TypeModel::VarLenUnicode => seq![
            SiteModel { offset: base, word: TEXT_HEADER_WORD as nat, unit: 1 },
        ],
        _ => Seq::empty(),
    }
}

/// The headers of the first `n` fields of a compound that starts `base` bytes
/// into the record.
pub open spec fn field_sites(fields: Seq<FieldModel>, base: nat, n: nat) -> Seq<SiteModel>
    decreases fields, n,
{
    if n == 0 || n > fields.len() {
        Seq::empty()
    } else {
        field_sites(fields, base, (n - 1) as nat) + sites(
            fields[n - 1].ty,
            base + fields[n - 1].offset,
        )
    }
}

/// Whether the payload that the header at `site` of the record `src` names
/// lies within a payload area of `heap_len` bytes.
pub open spec fn site_fits(site: SiteModel, src: Seq<u8>, heap_len: nat, order: ByteOrder) -> bool {
    payload_fits(src.skip(site.offset as int), heap_len, order, site.word, site.unit)
}

/// Whether the payloads of the first `n` fields lie in the payload area.
pub open spec fn fields_fit(
    fields: Seq<FieldModel>,
    src: Seq<u8>,
    base: nat,
    heap_len: nat,
    order: ByteOrder,
    n: nat,
) -> bool {
    forall|i: int|
        0 <= i < n ==> payloads_fit(
            (#[trigger] fields[i]).ty,
            src.skip((base + fields[i].offset) as int),
            heap_len,
            order,
        )
}

/// The headers of a value are those whose payloads decide whether the value
/// can be decoded, and each lies within the value.
pub proof fn lemma_sites_cover(
    d: TypeModel,
    src: Seq<u8>,
    base: nat,
    heap_len: nat,
    order: ByteOrder,
)
    requires
        d.wf(),
        base + d.size() <= src.len(),
    ensures
        payloads_fit(d, src.skip(base as int), heap_len, order) <==> (forall|i: int|
            0 <= i < sites(d, base).len() ==> site_fits(
                #[trigger] sites(d, base)[i],
                src,
                heap_len,
                order,
            )),
        forall|i: int|
            0 <= i < sites(d, base).len() ==> base <= (#[trigger] sites(d, base)[i]).offset
                && sites(d, base)[i].offset + 2 * sites(d, base)[i].word <= base + d.size(),
    decreases d,
{
    match d {
        TypeModel::Compound(fields, size) => {
            lemma_field_sites_cover(fields, size, src, base, heap_len, order, fields.len());
            assert forall|i: int| 0 <= i < fields.len() implies src.skip(base as int).skip(
                (#[trigger] fields[i]).offset as int,
            ) == src.skip((base + fields[i].offset) as int) by {
                assert(src.skip(base as int).skip(fields[i].offset as int) =~= src.skip(
                    (base + fields[i].offset) as int,
                ));
            }
            assert(payloads_fit(d, src.skip(base as int), heap_len, order) <==> fields_fit(
                fields,
                src,
                base,
                heap_len,
                order,
                fields.len(),
            ));
            assert(sites(d, base) == field_sites(fields, base, fields.len()));
        },
        TypeModel::VarLenArray(_) => {
            assert(sites(d, base)[0].offset == base);
        },
        TypeModel::VarLenAscii => {
            assert(sites(d, base)[0].offset == base);
        },
        TypeModel::VarLenUnicode => {
            assert(sites(d, base)[0].offset == base);
        },
        _ => {},
    }
}

/// [`lemma_sites_cover`] for the first `n` fields of a compound.
pub proof fn lemma_field_sites_cover(
    fields: Seq<FieldModel>,
    size: nat,
    src: Seq<u8>,
    base: nat,
    heap_len: nat,
    order: ByteOrder,
    n: nat,
)
    requires
        TypeModel::Compound(fields, size).wf(),
        base + size <= src.len(),
        n <= fields.len(),
    ensures
        fields_fit(fields, src, base, heap_len, order, n) <==> (forall|i: int|
            0 <= i < field_sites(fields, base, n).len() ==> site_fits(
                #[trigger] field_sites(fields, base, n)[i],
                src,
                heap_len,
                order,
            )),
        forall|i: int|
            0 <= i < field_sites(fields, base, n).len() ==> base <= (#[trigger] field_sites(
                fields,
                base,
                n,
            )[i]).offset && field_sites(fields, base, n)[i].offset + 2 * field_sites(
                fields,
                base,
                n,
            )[i].word <= base + size,
    decreases fields, n,
{
    if n > 0 {
        let head = field_sites(fields, base, (n - 1) as nat);
        let last = fields[n - 1];
        let tail = sites(last.ty, base + last.offset);
        lemma_field_sites_cover(fields, size, src, base, heap_len, order, (n - 1) as nat);
        lemma_sites_cover(last.ty, src, base + last.offset, heap_len, order);
        // The headers of the first `n` fields are those of the fields before
        // the last, then those of the last. What holds of all of them holds
        // of each part, and the other way round.
        assert(field_sites(fields, base, n) == head + tail);
        assert forall|i: int| 0 <= i < (head + tail).len() implies (head + tail)[i] == if i
            < head.len() {
            head[i]
        } else {
            tail[i - head.len()]
        } by {}
        let all = forall|i: int|
            0 <= i < (head + tail).len() ==> site_fits(
                #[trigger] (head + tail)[i],
                src,
                heap_len,
                order,
            );
        let first = forall|i: int|
            0 <= i < head.len() ==> site_fits(#[trigger] head[i], src, heap_len, order);
        let second = forall|i: int|
            0 <= i < tail.len() ==> site_fits(#[trigger] tail[i], src, heap_len, order);
        if all {
            assert forall|i: int| 0 <= i < head.len() implies site_fits(
                #[trigger] head[i],
                src,
                heap_len,
                order,
            ) by {
                assert((head + tail)[i] == head[i]);
            }
            assert forall|i: int| 0 <= i < tail.len() implies site_fits(
                #[trigger] tail[i],
                src,
                heap_len,
                order,
            ) by {
                assert((head + tail)[i + head.len()] == tail[i]);
            }
        }
        assert(all <==> first && second);
        if fields_fit(fields, src, base, heap_len, order, n) {
            assert(fields_fit(fields, src, base, heap_len, order, (n - 1) as nat));
            assert(payloads_fit(
                fields[n - 1].ty,
                src.skip((base + fields[n - 1].offset) as int),
                heap_len,
                order,
            ));
        }
    }
}

fn collect_field_sites(
    fields: &Vec<CompoundField>,
    size: usize,
    base: usize,
    found: &mut Vec<VarLenSite>,
)
    requires
        TypeModel::Compound(fields_model(*fields), size as nat).wf(),
        base + size <= usize::MAX,
    ensures
        sites_model(final(found)@) == sites_model(old(found)@) + field_sites(
            fields_model(*fields),
            base as nat,
            fields.len() as nat,
        ),
    decreases fields,
{
    let ghost model = fields_model(*fields);
    let mut i: usize = 0;
    while i < fields.len()
        invariant
            i <= fields.len(),
            model == fields_model(*fields),
            TypeModel::Compound(model, size as nat).wf(),
            base + size <= usize::MAX,
            sites_model(found@) == sites_model(old(found)@) + field_sites(
                model,
                base as nat,
                i as nat,
            ),
        decreases fields.len() - i,
    {
        let field = &fields[i];
        assert(model[i as int] == field.model());
        collect_sites(&field.ty, base + field.offset, found);
        assert(sites_model(found@) =~= sites_model(old(found)@) + field_sites(
            model,
            base as nat,
            (i + 1) as nat,
        ));
        i += 1;
    }
}

fn collect_sites(dtype: &TypeDescriptor, base: usize, found: &mut Vec<VarLenSite>)
    requires
        dtype@.wf(),
        base + dtype@.size() <= usize::MAX,
    ensures
        sites_model(final(found)@) == sites_model(old(found)@) + sites(dtype@, base as nat),
    decreases dtype,
{
    match dtype {
        TypeDescriptor::Compound(c) => {
            collect_field_sites(&c.fields, c.size, base, found);
        },
        TypeDescriptor::VarLenArray(ty) => {
            proof {
                lemma_wf_sized(ty@);
            }
            found.push(VarLenSite { offset: base, word: ARRAY_HEADER_WORD, unit: ty.size() });
            assert(sites_model(found@) =~= sites_model(old(found)@) + sites(dtype@, base as nat));
        },
        TypeDescriptor::VarLenAscii => {
            found.push(VarLenSite { offset: base, word: TEXT_HEADER_WORD, unit: 1 });
            assert(sites_model(found@) =~= sites_model(old(found)@) + sites(dtype@, base as nat));
        },
        TypeDescriptor::VarLenUnicode => {
            found.push(VarLenSite { offset: base, word: TEXT_HEADER_WORD, unit: 1 });
            assert(sites_model(found@) =~= sites_model(old(found)@) + sites(dtype@, base as nat));
        },
        _ => {
            assert(sites_model(found@) =~= sites_model(old(found)@) + sites(dtype@, base as nat));
        },
    }
}

/// The headers of variable-length values in a record of shape `dtype`, in the
/// order in which decoding reads them.
pub fn varlen_sites(dtype: &TypeDescriptor) -> (found: Vec<VarLenSite>)
    requires
        dtype@.wf(),
    ensures
        sites_model(found@) == sites(dtype@, 0),
{
    let mut found: Vec<VarLenSite> = Vec::new();
    proof {
        lemma_wf_sized(dtype@);
    }
    // The size fits the machine, and so does every offset within the value.
    let _size: usize = dtype.size();
    collect_sites(dtype, 0, &mut found);
    assert(sites_model(found@) =~= sites(dtype@, 0));
    found
}

} // verus!
