use vstd::prelude::*;

use crate::error::PcdError;
use crate::layout::PcdLayout;
use crate::lebytes::elem_from_bytes;
use crate::storage::PointBlock;

verus! {

/// Byte position of element `k` of field `f` of point `i` in a flat
/// array-of-structures body: records of `total_size` bytes, fields packed
/// at their resolved offsets.
pub open spec fn aos_pos(l: &PcdLayout, f: int, i: int, k: int) -> int {
    i * l.total_size + l.fields@[f].offset + k * l.fields@[f].element_size
}

/// The bit pattern of element `k` of field `f` of point `i` as encoded in a
/// flat array-of-structures body.
#[verifier::opaque]
pub open spec fn aos_elem(l: &PcdLayout, data: Seq<u8>, f: int, i: int, k: int) -> u64 {
    elem_from_bytes(
        l.fields@[f].type_,
        data.subrange(aos_pos(l, f, i, k), aos_pos(l, f, i, k) + l.fields@[f].element_size),
    )
}

/// The layout's field names are pairwise distinct, each is present in the
/// block's schema, and the column it names holds the field's element type.
pub open spec fn columns_compatible(l: &PcdLayout, b: &PointBlock) -> bool {
    &&& forall|a: int, c: int|
        0 <= a < c < l.fields@.len() ==> (#[trigger] l.fields@[a]).name@ != (
        #[trigger] l.fields@[c]).name@
    &&& forall|f: int| 0 <= f < l.fields@.len() ==> b.has_name((#[trigger] l.fields@[f]).name@)
    &&& forall|f: int|
        0 <= f < l.fields@.len() ==> b.col_type(
            b.first_index((#[trigger] l.fields@[f]).name@),
        ) == l.fields@[f].type_
}

/// Sequential decoder for flat-binary bodies: one record of `total_size`
/// bytes per point, little-endian fields at their resolved offsets.
pub struct BinaryReader<'a> {
    pub data: &'a [u8],
    pub layout: &'a PcdLayout,
    pub points_to_read: usize,
}

impl<'a> BinaryReader<'a> {
    pub fn new(data: &'a [u8], layout: &'a PcdLayout, points_to_read: usize) -> (r: Self)
        ensures
            r.data@ == data@,
            r.layout == layout,
            r.points_to_read == points_to_read,
    {
        Self { data, layout, points_to_read }
    }

}

/// Map each layout field to the column it names: checks that every field
/// names an existing column, that no two fields share a name, and that each
/// named column holds the field's element type.
#[verifier::rlimit(100)]
fn resolve_columns(l: &PcdLayout, output: &PointBlock) -> (r: Result<Vec<usize>, PcdError>)
    requires
        output.wf(),
    ensures
        r is Ok <==> columns_compatible(l, output),
        r matches Ok(idxs) ==> {
            &&& idxs@.len() == l.fields@.len()
            &&& forall|j: int|
                0 <= j < l.fields@.len() ==> idxs@[j] as int == output.first_index(
                    (#[trigger] l.fields@[j]).name@,
                )
            &&& forall|j: int|
                0 <= j < l.fields@.len() ==> 0 <= (idxs@[j] as int) && (idxs@[j] as int)
                    < output.num_cols()
            &&& forall|a: int, b: int| 0 <= a < b < l.fields@.len() ==> idxs@[a] != idxs@[b]
            &&& forall|j: int|
                0 <= j < l.fields@.len() ==> output.col_type(idxs@[j] as int) == (
                #[trigger] l.fields@[j]).type_
        },
{
    let nf = l.fields.len();

    // Every field must name an existing column.
    let mut names: Vec<String> = Vec::new();
    let mut f: usize = 0;
    while f < nf
        invariant
            nf == l.fields@.len(),
            f <= nf,
            names@.len() == f,
            output.wf(),
            forall|j: int| 0 <= j < f ==> names@[j]@ == (#[trigger] l.fields@[j]).name@,
            forall|j: int| 0 <= j < f ==> output.has_name((#[trigger] l.fields@[j]).name@),
        decreases nf - f,
    {
        if output.get_column(l.fields[f].name.as_str()).is_none() {
            proof {
                assert(!output.has_name(l.fields@[f as int].name@));
                assert(!columns_compatible(l, output));
            }
            return Err(PcdError::LayoutMismatch { expected: 0, got: 0 });
        }
        names.push(l.fields[f].name.clone());
        f = f + 1;
    }

    // Verified-distinct column indices, one per field.
    let idxs: Vec<usize> = match output.get_columns_mut(names.as_slice()) {
        Some(v) => v,
        None => {
            proof {
                // All names are present, so only a duplicate can refuse.
                assert forall|a: int| 0 <= a < names@.len() implies output.has_name(
                    #[trigger] names@[a]@,
                ) by {
                    assert(names@[a]@ == l.fields@[a].name@);
                    assert(output.has_name(l.fields@[a].name@));
                }
                assert(!(forall|a: int, b: int|
                    0 <= a < b < names@.len() ==> names@[a]@ != names@[b]@));
                let (a, b) = choose|a: int, b: int|
                    0 <= a < b < names@.len() && names@[a]@ == names@[b]@;
                assert(l.fields@[a].name@ == l.fields@[b].name@);
                assert(!columns_compatible(l, output));
            }
            return Err(PcdError::Other("duplicate field names in layout".to_owned()));
        },
    };

    proof {
        assert forall|j: int| 0 <= j < nf implies idxs@[j] as int == output.first_index(
            (#[trigger] l.fields@[j]).name@,
        ) by {
            output.lemma_first_index(l.fields@[j].name@);
            let c1 = idxs@[j] as int;
            let c2 = output.first_index(l.fields@[j].name@);
            assert(output.found_index(names@[j]@, c1));
            assert(output.found_index(l.fields@[j].name@, c2));
            if c1 < c2 {
                assert(output.name_at(c1) != l.fields@[j].name@);
            } else if c2 < c1 {
                assert(output.name_at(c2) != names@[j]@);
            }
        }
    }

    // Each named column must hold the field's element type.
    let mut f: usize = 0;
    while f < nf
        invariant
            nf == l.fields@.len(),
            f <= nf,
            output.wf(),
            idxs@.len() == nf,
            forall|j: int| 0 <= j < nf ==> names@[j]@ == (#[trigger] l.fields@[j]).name@,
            forall|j: int| 0 <= j < nf ==> output.has_name((#[trigger] l.fields@[j]).name@),
            forall|j: int|
                0 <= j < nf ==> idxs@[j] as int == output.first_index(
                    (#[trigger] l.fields@[j]).name@,
                ),
            forall|j: int|
                0 <= j < nf ==> output.found_index((#[trigger] l.fields@[j]).name@, idxs@[j] as int),
            forall|a: int, b: int| 0 <= a < b < nf ==> idxs@[a] != idxs@[b],
            forall|j: int|
                0 <= j < f ==> output.col_type(idxs@[j] as int) == (#[trigger] l.fields@[j]).type_,
        decreases nf - f,
    {
        let c = idxs[f];
        let col_type = output.col_type_at(c);
        if !types_equal(col_type, l.fields[f].type_) {
            proof {
                assert(output.col_type(output.first_index(l.fields@[f as int].name@))
                    != l.fields@[f as int].type_);
                assert(!columns_compatible(l, output));
            }
            return Err(
                PcdError::LayoutMismatch {
                    expected: l.fields[f].element_size,
                    got: col_type.size(),
                },
            );
        }
        f = f + 1;
    }
    proof {
        assert(columns_compatible(l, output));
    }
    Ok(idxs)
}

/// Exec equality on element type tags.
fn types_equal(a: crate::header::ValueType, b: crate::header::ValueType) -> (r: bool)
    ensures
        r == (a == b),
{
    a == b
}

} // verus!
