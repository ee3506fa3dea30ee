//! Reading tensors out of arrays: one array for each tensor, or one flat
//! array for all of them.

use crate::error::CircuitError;
use crate::circuit::GraphCircuit;
use crate::felt::{i128_to_felt, signed_residue, Felt};
use crate::model::{input_shapes_are, module_settings_are, output_shapes_are, Model, Modules};
use crate::source::{DataSource, GraphInput, GraphWitness, WitnessSource};
use crate::tensor::{checked_shape_len, shape_len, Tensor};
use vstd::prelude::*;

verus! {

/// `t` reads the flat values `values` by the shape `shape`.
pub open spec fn reads(t: Tensor, values: Seq<Felt>, shape: Seq<usize>) -> bool {
    t.wf() && t.shape() == shape && t.values() == values
}

/// `values` are the field elements that stand for the integers `data`, one
/// for one.
pub open spec fn encodes(values: Seq<Felt>, data: Seq<i128>) -> bool {
    &&& values.len() == data.len()
    &&& forall|j: int|
        0 <= j < values.len() ==> (#[trigger] values[j]).value() == signed_residue(data[j] as int)
}

/// The number of values that come before tensor `i` when tensors of the
/// shapes `shapes` lie one after the other in a flat array.
pub open spec fn offset_of(shapes: Seq<Vec<usize>>, i: int) -> nat
    decreases i,
{
    if i <= 0 {
        0
    } else {
        offset_of(shapes, i - 1) + shape_len(shapes[i - 1]@)
    }
}

/// The scale of each single value of tensors of the shapes `shapes`, where
/// `scales` holds one scale for each tensor.
pub open spec fn expand_scales(shapes: Seq<Vec<usize>>, scales: Seq<u32>) -> Seq<u32>
    decreases shapes.len(),
{
    if shapes.len() == 0 {
        Seq::empty()
    } else {
        expand_scales(shapes.drop_last(), scales.drop_last()) + Seq::new(
            shape_len(shapes.last()@),
            |j: int| scales.last(),
        )
    }
}

/// The values of the tensors `ts`, one tensor after the other.
pub open spec fn flat_values(ts: Seq<Tensor>) -> Seq<Felt>
    decreases ts.len(),
{
    if ts.len() == 0 {
        Seq::empty()
    } else {
        flat_values(ts.drop_last()) + ts.last().values()
    }
}

/// What `per_item_scales` gives for `shapes` and `scales`: the expanded
/// scales, or the error of the first thing that is wrong.
pub open spec fn scales_expanded(
    r: Result<Vec<u32>, CircuitError>,
    shapes: Seq<Vec<usize>>,
    scales: Seq<u32>,
) -> bool {
    match r {
        Ok(v) => {
            &&& shapes.len() == scales.len()
            &&& crate::settings::shapes_fit(shapes)
            &&& v@ == expand_scales(shapes, scales)
        },
        Err(CircuitError::ArityMismatch { expected, found }) => {
            &&& expected == shapes.len()
            &&& found == scales.len()
            &&& expected != found
        },
        Err(CircuitError::ShapeTooLarge { index }) => {
            &&& shapes.len() == scales.len()
            &&& index < shapes.len()
            &&& shape_len(shapes[index as int]@) > usize::MAX
            &&& crate::settings::shapes_fit(shapes.take(index as int))
        },
        Err(_) => false,
    }
}

/// What reading one tensor out of each array of `arrays` by `shapes` gives:
/// the tensors, or the error of the first thing that is wrong.
pub open spec fn arrays_read(
    r: Result<Vec<Tensor>, CircuitError>,
    arrays: Seq<Vec<Felt>>,
    shapes: Seq<Vec<usize>>,
) -> bool {
    match r {
        Ok(ts) => {
            &&& arrays.len() == shapes.len()
            &&& ts@.len() == shapes.len()
            &&& forall|i: int|
                0 <= i < ts@.len() ==> reads(#[trigger] ts@[i], arrays[i]@, shapes[i]@)
        },
        Err(CircuitError::ArityMismatch { expected, found }) => {
            &&& expected == shapes.len()
            &&& found == arrays.len()
            &&& expected != found
        },
        Err(CircuitError::DimMismatch { index }) => {
            &&& arrays.len() == shapes.len()
            &&& index < shapes.len()
            &&& arrays[index as int]@.len() != shape_len(shapes[index as int]@)
            &&& forall|k: int|
                0 <= k < index ==> (#[trigger] arrays[k])@.len() == shape_len(shapes[k]@)
        },
        Err(_) => false,
    }
}

/// What reading one tensor out of each array of quantized values by
/// `shapes` gives: the tensors of the encoded values, or the error of the
/// first thing that is wrong.
pub open spec fn quantized_read(
    r: Result<Vec<Tensor>, CircuitError>,
    arrays: Seq<Vec<i128>>,
    shapes: Seq<Vec<usize>>,
) -> bool {
    match r {
        Ok(ts) => {
            &&& arrays.len() == shapes.len()
            &&& ts@.len() == shapes.len()
            &&& forall|i: int|
                0 <= i < ts@.len() ==> (#[trigger] ts@[i]).wf() && ts@[i].shape()
                    == shapes[i]@ && encodes(ts@[i].values(), arrays[i]@)
        },
        Err(CircuitError::ArityMismatch { expected, found }) => {
            &&& expected == shapes.len()
            &&& found == arrays.len()
            &&& expected != found
        },
        Err(CircuitError::DimMismatch { index }) => {
            &&& arrays.len() == shapes.len()
            &&& index < shapes.len()
            &&& arrays[index as int]@.len() != shape_len(shapes[index as int]@)
            &&& forall|k: int|
                0 <= k < index ==> (#[trigger] arrays[k])@.len() == shape_len(shapes[k]@)
        },
        Err(_) => false,
    }
}

/// What splitting the flat array `values` into tensors of the shapes
/// `shapes` gives: the tensors, or the error that names the first tensor
/// that the values do not fill, or the number of tensors where values are
/// left over.
pub open spec fn values_split(
    r: Result<Vec<Tensor>, CircuitError>,
    values: Seq<Felt>,
    shapes: Seq<Vec<usize>>,
) -> bool {
    match r {
        Ok(ts) => {
            &&& offset_of(shapes, shapes.len() as int) == values.len()
            &&& ts@.len() == shapes.len()
            &&& forall|i: int|
                0 <= i < ts@.len() ==> reads(
                    #[trigger] ts@[i],
                    values.subrange(
                        offset_of(shapes, i) as int,
                        offset_of(shapes, i + 1) as int,
                    ),
                    shapes[i]@,
                )
        },
        Err(CircuitError::DimMismatch { index }) => {
            &&& index <= shapes.len()
            &&& offset_of(shapes, index as int) <= values.len()
            &&& if index < shapes.len() {
                offset_of(shapes, index + 1) > values.len()
            } else {
                offset_of(shapes, index as int) < values.len()
            }
        },
        Err(_) => false,
    }
}

/// The offset of a tensor depends on the shapes before it alone.
pub proof fn lemma_offset_of_prefix(shapes: Seq<Vec<usize>>, n: int, i: int)
    requires
        0 <= i <= n <= shapes.len(),
    ensures
        offset_of(shapes.take(n), i) == offset_of(shapes, i),
    decreases i,
{
    if i > 0 {
        lemma_offset_of_prefix(shapes, n, i - 1);
        assert(shapes.take(n)[i - 1] == shapes[i - 1]);
    }
}

/// Offsets only grow from one tensor to the next.
pub proof fn lemma_offsets_grow(shapes: Seq<Vec<usize>>, i: int, j: int)
    requires
        0 <= i <= j,
    ensures
        offset_of(shapes, i) <= offset_of(shapes, j),
    decreases j - i,
{
    if i < j {
        lemma_offsets_grow(shapes, i, j - 1);
    }
}

/// Flattening tensors and splitting the flat values by the shapes of the
/// same tensors gives the tensors back: the flat array holds exactly the
/// values of all of them, and the part of it that belongs to tensor `i`
/// holds the values of that tensor.
pub proof fn lemma_split_restores_flattened(ts: Seq<Tensor>, shapes: Seq<Vec<usize>>, i: int)
    requires
        shapes.len() == ts.len(),
        forall|k: int| 0 <= k < ts.len() ==> (#[trigger] ts[k]).wf() && shapes[k]@ == ts[k].shape(),
        0 <= i < ts.len(),
    ensures
        offset_of(shapes, ts.len() as int) == flat_values(ts).len(),
        offset_of(shapes, i + 1) <= flat_values(ts).len(),
        flat_values(ts).subrange(offset_of(shapes, i) as int, offset_of(shapes, i + 1) as int)
            == ts[i].values(),
    decreases ts.len(),
{
    let n = ts.len() as int;
    let front = ts.drop_last();
    let front_shapes = shapes.drop_last();
    let last = ts.last();
    assert(front_shapes == shapes.take(n - 1));
    lemma_offset_of_prefix(shapes, n - 1, n - 1);
    assert(last.wf() && shapes[n - 1]@ == last.shape());
    if n > 1 {
        assert forall|k: int| 0 <= k < front.len() implies (#[trigger] front[k]).wf()
            && front_shapes[k]@ == front[k].shape() by {
            assert(front[k] == ts[k]);
        }
        lemma_split_restores_flattened(front, front_shapes, if i < n - 1 {
            i
        } else {
            0
        });
    } else {
        assert(flat_values(front).len() == 0);
    }
    assert(offset_of(shapes, n - 1) == flat_values(front).len());
    assert(offset_of(shapes, n) == flat_values(ts).len());
    if i < n - 1 {
        lemma_offset_of_prefix(shapes, n - 1, i);
        lemma_offset_of_prefix(shapes, n - 1, i + 1);
        assert(front[i] == ts[i]);
        assert(flat_values(ts).subrange(
            offset_of(shapes, i) as int,
            offset_of(shapes, i + 1) as int,
        ) =~= flat_values(front).subrange(
            offset_of(shapes, i) as int,
            offset_of(shapes, i + 1) as int,
        ));
    } else {
        assert(flat_values(ts).subrange(
            offset_of(shapes, i) as int,
            offset_of(shapes, i + 1) as int,
        ) =~= last.values());
    }
}

/// What a source of data gives when a circuit asks it for tensors.
#[derive(Debug)]
pub enum SourceLoad {
    /// The tensors, read from the arrays of a file.
    Ready(Vec<Tensor>),
    /// The values live on a chain. They are to be read there and quantized
    /// at these scales, one for each single value, and then handed to
    /// `load_on_chain_data`.
    Fetch { per_item_scale: Vec<u32> },
}

/// What the source `data` of inputs gives for tensors of the shapes
/// `shapes`: the tensors of its arrays, or a fetch with one scale for each
/// value that lives on the chain, or the error of the first thing that is
/// wrong.
pub open spec fn data_source_processed(
    data: DataSource,
    shapes: Seq<Vec<usize>>,
    scales: Seq<u32>,
    r: Result<SourceLoad, CircuitError>,
) -> bool {
    match (data, r) {
        (DataSource::File(arrays), Ok(SourceLoad::Ready(ts))) => quantized_read(
            Ok(ts),
            arrays@,
            shapes,
        ),
        (DataSource::File(arrays), Err(e)) => quantized_read(Err(e), arrays@, shapes),
        (DataSource::OnChain(_), Ok(SourceLoad::Fetch { per_item_scale })) => scales_expanded(
            Ok(per_item_scale),
            shapes,
            scales,
        ),
        (DataSource::OnChain(_), Err(e)) => scales_expanded(Err(e), shapes, scales),
        _ => false,
    }
}

/// What the source `data` of a witness gives for tensors of the shapes
/// `shapes`: the tensors of its arrays, or a fetch with one scale for each
/// value that lives on the chain, or the error of the first thing that is
/// wrong.
pub open spec fn witness_source_processed(
    data: WitnessSource,
    shapes: Seq<Vec<usize>>,
    scales: Seq<u32>,
    r: Result<SourceLoad, CircuitError>,
) -> bool {
    match (data, r) {
        (WitnessSource::File(arrays), Ok(SourceLoad::Ready(ts))) => arrays_read(
            Ok(ts),
            arrays@,
            shapes,
        ),
        (WitnessSource::File(arrays), Err(e)) => arrays_read(Err(e), arrays@, shapes),
        (WitnessSource::OnChain(_), Ok(SourceLoad::Fetch { per_item_scale })) => scales_expanded(
            Ok(per_item_scale),
            shapes,
            scales,
        ),
        (WitnessSource::OnChain(_), Err(e)) => scales_expanded(Err(e), shapes, scales),
        _ => false,
    }
}

/// `n` times the scale `scale`: one for each of `n` tensors.
pub fn uniform_scales(scale: u32, n: usize) -> (r: Vec<u32>)
    ensures
        r@ == Seq::new(n as nat, |i: int| scale),
{
    let mut r: Vec<u32> = Vec::new();
    let mut i: usize = 0;
    while i < n
        invariant
            i <= n,
            r@ == Seq::new(i as nat, |k: int| scale),
        decreases n - i,
    {
        r.push(scale);
        assert(r@ =~= Seq::new((i + 1) as nat, |k: int| scale));
        i = i + 1;
    }
    r
}

/// The field elements that stand for the integers of `data`.
pub fn encode_all(data: &Vec<i128>) -> (r: Vec<Felt>)
    ensures
        encodes(r@, data@),
{
    let mut r: Vec<Felt> = Vec::new();
    let mut j: usize = 0;
    while j < data.len()
        invariant
            j <= data.len(),
            encodes(r@, data@.take(j as int)),
        decreases data.len() - j,
    {
        r.push(i128_to_felt(data[j]));
        j = j + 1;
    }
    assert(data@.take(j as int) == data@);
    r
}

/// The scale of each single value of tensors of the shapes `shapes`, where
/// `scales` holds one scale for each tensor.
pub fn per_item_scales(shapes: &Vec<Vec<usize>>, scales: &Vec<u32>) -> (r: Result<
    Vec<u32>,
    CircuitError,
>)
    ensures
        scales_expanded(r, shapes@, scales@),
{
    if scales.len() != shapes.len() {
        return Err(CircuitError::ArityMismatch { expected: shapes.len(), found: scales.len() });
    }
    let mut v: Vec<u32> = Vec::new();
    let mut i: usize = 0;
    while i < shapes.len()
        invariant
            i <= shapes.len(),
            shapes@.len() == scales@.len(),
            crate::settings::shapes_fit(shapes@.take(i as int)),
            v@ == expand_scales(shapes@.take(i as int), scales@.take(i as int)),
        decreases shapes.len() - i,
    {
        let n = match checked_shape_len(&shapes[i]) {
            Some(n) => n,
            None => {
                return Err(CircuitError::ShapeTooLarge { index: i });
            },
        };
        let scale = scales[i];
        let ghost before = v@;
        let mut j: usize = 0;
        while j < n
            invariant
                j <= n,
                v@ == before + Seq::new(j as nat, |k: int| scale),
            decreases n - j,
        {
            v.push(scale);
            assert(v@ =~= before + Seq::new((j + 1) as nat, |k: int| scale));
            j = j + 1;
        }
        proof {
            let s1 = shapes@.take(i + 1);
            let c1 = scales@.take(i + 1);
            assert(s1.drop_last() == shapes@.take(i as int));
            assert(c1.drop_last() == scales@.take(i as int));
            assert(s1.last() == shapes@[i as int]);
            assert(c1.last() == scale);
            assert forall|k: int| 0 <= k < s1.len() implies shape_len(#[trigger] s1[k]@)
                <= usize::MAX by {
                if k < i {
                    assert(s1[k] == shapes@.take(i as int)[k]);
                }
            }
        }
        i = i + 1;
    }
    assert(shapes@.take(i as int) == shapes@);
    assert(scales@.take(i as int) == scales@);
    Ok(v)
}

/// What `tensor_offsets` gives for `shapes` and a flat array of `total`
/// values: the offset of each tensor and, last, the total; or the error
/// that names the first tensor that the values do not fill, or the number
/// of tensors where values are left over.
pub open spec fn offsets_found(
    r: Result<Vec<usize>, CircuitError>,
    shapes: Seq<Vec<usize>>,
    total: usize,
) -> bool {
    match r {
        Ok(v) => {
            &&& offset_of(shapes, shapes.len() as int) == total
            &&& v@.len() == shapes.len() + 1
            &&& forall|i: int| 0 <= i <= shapes.len() ==> #[trigger] v@[i] == offset_of(shapes, i)
        },
        Err(CircuitError::DimMismatch { index }) => {
            &&& index <= shapes.len()
            &&& offset_of(shapes, index as int) <= total
            &&& if index < shapes.len() {
                offset_of(shapes, index + 1) > total
            } else {
                offset_of(shapes, index as int) < total
            }
        },
        Err(_) => false,
    }
}

/// Where each tensor of the shapes `shapes` begins in a flat array of
/// `total` values that holds them one after the other, and, last, where the
/// last of them ends. The array must hold exactly the values of all of
/// them.
pub fn tensor_offsets(shapes: &Vec<Vec<usize>>, total: usize) -> (r: Result<
    Vec<usize>,
    CircuitError,
>)
    ensures
        offsets_found(r, shapes@, total),
{
    let mut v: Vec<usize> = Vec::new();
    let mut start: usize = 0;
    v.push(start);
    let mut i: usize = 0;
    while i < shapes.len()
        invariant
            i <= shapes.len(),
            start <= total,
            start == offset_of(shapes@, i as int),
            v@.len() == i + 1,
            forall|k: int| 0 <= k <= i ==> #[trigger] v@[k] == offset_of(shapes@, k),
        decreases shapes.len() - i,
    {
        let n = match checked_shape_len(&shapes[i]) {
            Some(n) => n,
            None => {
                return Err(CircuitError::DimMismatch { index: i });
            },
        };
        if n > total - start {
            return Err(CircuitError::DimMismatch { index: i });
        }
        start = start + n;
        v.push(start);
        i = i + 1;
    }
    if start != total {
        return Err(CircuitError::DimMismatch { index: i });
    }
    Ok(v)
}

/// The values of all tensors of `ts`, one tensor after the other, as one
/// tensor of a single dimension.
pub fn flatten_tensors(ts: &Vec<Tensor>) -> (r: Tensor)
    ensures
        r.wf(),
        r.values() == flat_values(ts@),
        r.shape() == seq![flat_values(ts@).len() as usize],
{
    let mut all: Vec<Felt> = Vec::new();
    let mut i: usize = 0;
    while i < ts.len()
        invariant
            i <= ts.len(),
            all@ == flat_values(ts@.take(i as int)),
        decreases ts.len() - i,
    {
        let mut part = ts[i].to_vec();
        all.append(&mut part);
        proof {
            let next = ts@.take(i + 1);
            assert(next.drop_last() == ts@.take(i as int));
            assert(next.last() == ts@[i as int]);
        }
        i = i + 1;
    }
    assert(ts@.take(i as int) == ts@);
    let mut dims: Vec<usize> = Vec::new();
    dims.push(all.len());
    proof {
        assert(dims@.drop_last().len() == 0);
        assert(shape_len(dims@.drop_last()) == 1);
        assert(dims@.last() == all@.len());
        assert(shape_len(dims@) == 1 * all@.len());
        assert(dims@ == seq![flat_values(ts@).len() as usize]);
    }
    match Tensor::from_values(all, &dims) {
        Some(t) => t,
        None => vstd::pervasive::unreached(),
    }
}

impl<M: Model, G: Modules> GraphCircuit<M, G> {
    /// One tensor for each array of `arrays`, read by the shape at the same
    /// place in `shapes`. There must be as many arrays as shapes, and each
    /// array must hold as many values as its shape has elements.
    pub fn load_witness_file_data(&self, arrays: &Vec<Vec<Felt>>, shapes: &Vec<Vec<usize>>) -> (r:
        Result<Vec<Tensor>, CircuitError>)
        ensures
            arrays_read(r, arrays@, shapes@),
    {
        if arrays.len() != shapes.len() {
            return Err(CircuitError::ArityMismatch { expected: shapes.len(), found: arrays.len() });
        }
        let mut ts: Vec<Tensor> = Vec::new();
        let mut i: usize = 0;
        while i < shapes.len()
            invariant
                i <= shapes.len(),
                arrays@.len() == shapes@.len(),
                ts@.len() == i,
                forall|k: int| 0 <= k < i ==> reads(#[trigger] ts@[k], arrays@[k]@, shapes@[k]@),
                forall|k: int|
                    0 <= k < i ==> (#[trigger] arrays@[k])@.len() == shape_len(shapes@[k]@),
            decreases shapes.len() - i,
        {
            let values = crate::tensor::copy_of(&arrays[i]);
            match Tensor::from_values(values, &shapes[i]) {
                Some(t) => {
                    ts.push(t);
                },
                None => {
                    return Err(CircuitError::DimMismatch { index: i });
                },
            }
            i = i + 1;
        }
        Ok(ts)
    }

    /// One tensor for each array of quantized values, read by the shape at the
    /// same place in `shapes`; each value is encoded as a field element.
    pub fn load_file_data(&self, arrays: &Vec<Vec<i128>>, shapes: &Vec<Vec<usize>>) -> (r: Result<
        Vec<Tensor>,
        CircuitError,
    >)
        ensures
            quantized_read(r, arrays@, shapes@),
    {
        if arrays.len() != shapes.len() {
            return Err(CircuitError::ArityMismatch { expected: shapes.len(), found: arrays.len() });
        }
        let mut ts: Vec<Tensor> = Vec::new();
        let mut i: usize = 0;
        while i < shapes.len()
            invariant
                i <= shapes.len(),
                arrays@.len() == shapes@.len(),
                ts@.len() == i,
                forall|k: int|
                    0 <= k < i ==> (#[trigger] ts@[k]).wf() && ts@[k].shape() == shapes@[k]@
                        && encodes(ts@[k].values(), arrays@[k]@),
                forall|k: int|
                    0 <= k < i ==> (#[trigger] arrays@[k])@.len() == shape_len(shapes@[k]@),
            decreases shapes.len() - i,
        {
            let values = encode_all(&arrays[i]);
            match Tensor::from_values(values, &shapes[i]) {
                Some(t) => {
                    ts.push(t);
                },
                None => {
                    return Err(CircuitError::DimMismatch { index: i });
                },
            }
            i = i + 1;
        }
        Ok(ts)
    }

    /// The tensors of the shapes `shapes` that lie one after the other in the
    /// flat array `values`. The array must hold exactly the values of all of
    /// them. Where it does not, the error names the first tensor that the
    /// values do not fill, or the number of tensors where values are left over.
    pub fn load_on_chain_data(&self, values: &Vec<Felt>, shapes: &Vec<Vec<usize>>) -> (r: Result<
        Vec<Tensor>,
        CircuitError,
    >)
        ensures
            values_split(r, values@, shapes@),
    {
        let offsets = tensor_offsets(shapes, values.len())?;
        let mut ts: Vec<Tensor> = Vec::new();
        let mut i: usize = 0;
        while i < shapes.len()
            invariant
                i <= shapes.len(),
                offsets_found(Ok(offsets), shapes@, values@.len() as usize),
                values@.len() <= usize::MAX,
                ts@.len() == i,
                forall|k: int|
                    0 <= k < i ==> reads(
                        #[trigger] ts@[k],
                        values@.subrange(
                            offset_of(shapes@, k) as int,
                            offset_of(shapes@, k + 1) as int,
                        ),
                        shapes@[k]@,
                    ),
            decreases shapes.len() - i,
        {
            let start = offsets[i];
            let end = offsets[i + 1];
            proof {
                lemma_offsets_grow(shapes@, i + 1, shapes@.len() as int);
            }
            let mut part: Vec<Felt> = Vec::new();
            let mut j: usize = start;
            while j < end
                invariant
                    start <= j <= end <= values@.len(),
                    part@ == values@.subrange(start as int, j as int),
                decreases end - j,
            {
                part.push(values[j]);
                assert(values@.subrange(start as int, j + 1) == values@.subrange(
                    start as int,
                    j as int,
                ).push(values@[j as int]));
                j = j + 1;
            }
            match Tensor::from_values(part, &shapes[i]) {
                Some(t) => {
                    ts.push(t);
                },
                None => vstd::pervasive::unreached(),
            }
            i = i + 1;
        }
        Ok(ts)
    }

    /// What the source `data` gives for input tensors of the shapes
    /// `shapes`: the tensors where it holds arrays, else the scales at which
    /// the values on the chain are to be quantized, one for each value.
    pub fn process_data_source(
        &self,
        data: &DataSource,
        shapes: &Vec<Vec<usize>>,
        scales: &Vec<u32>,
    ) -> (r: Result<SourceLoad, CircuitError>)
        ensures
            data_source_processed(*data, shapes@, scales@, r),
    {
        match data {
            DataSource::OnChain(_) => {
                let per_item_scale = per_item_scales(shapes, scales)?;
                Ok(SourceLoad::Fetch { per_item_scale })
            },
            DataSource::File(arrays) => {
                let ts = self.load_file_data(arrays, shapes)?;
                Ok(SourceLoad::Ready(ts))
            },
        }
    }

    /// What the source `data` of a witness gives for tensors of the shapes
    /// `shapes`: the tensors where it holds arrays, else the scales at which
    /// the values on the chain are to be quantized, one for each value.
    pub fn process_witness_source(
        &self,
        data: &WitnessSource,
        shapes: &Vec<Vec<usize>>,
        scales: &Vec<u32>,
    ) -> (r: Result<SourceLoad, CircuitError>)
        ensures
            witness_source_processed(*data, shapes@, scales@, r),
    {
        match data {
            WitnessSource::OnChain(_) => {
                let per_item_scale = per_item_scales(shapes, scales)?;
                Ok(SourceLoad::Fetch { per_item_scale })
            },
            WitnessSource::File(arrays) => {
                let ts = self.load_witness_file_data(arrays, shapes)?;
                Ok(SourceLoad::Ready(ts))
            },
        }
    }

    /// Loads the inputs and the outputs of the witness `data` from its
    /// arrays, and the witness state of the modules. The inputs are read by
    /// the input shapes of the model, the outputs by its output shapes.
    /// Data that live on a chain are refused, and nothing changes: a chain
    /// is out of reach from here. Where the inputs cannot be read, nothing
    /// changes either; where the outputs cannot be read, the inputs have
    /// been replaced all the same.
    pub fn load_graph_witness(&mut self, data: &GraphWitness<G::Processed>) -> (r: Result<
        (),
        CircuitError,
    >)
        ensures
            final(self).model == old(self).model,
            final(self).modules == old(self).modules,
            final(self).settings == old(self).settings,
            data.input_data is OnChain || data.output_data is OnChain ==> r == Err::<
                (),
                CircuitError,
            >(CircuitError::OnChainUnavailable) && *final(self) == *old(self),
            match r {
                Ok(_) => {
                    &&& data.input_data is File
                    &&& data.output_data is File
                    &&& exists|shapes: Vec<Vec<usize>>| #[trigger]
                        input_shapes_are(&old(self).model, shapes) && arrays_read(
                            Ok(final(self).inputs),
                            data.input_data->File_0@,
                            shapes@,
                        )
                    &&& exists|shapes: Vec<Vec<usize>>| #[trigger]
                        output_shapes_are(&old(self).model, shapes) && arrays_read(
                            Ok(final(self).outputs),
                            data.output_data->File_0@,
                            shapes@,
                        )
                    &&& module_settings_are(&old(self).modules, data, final(self).module_settings)
                },
                Err(CircuitError::OnChainUnavailable) => data.input_data is OnChain
                    || data.output_data is OnChain,
                Err(e) => {
                    &&& data.input_data is File
                    &&& data.output_data is File
                    &&& final(self).outputs == old(self).outputs
                    &&& final(self).module_settings == old(self).module_settings
                    &&& {
                        ||| final(self).inputs == old(self).inputs && exists|
                            shapes: Vec<Vec<usize>>,
                        | #[trigger]
                            input_shapes_are(&old(self).model, shapes) && arrays_read(
                                Err(e),
                                data.input_data->File_0@,
                                shapes@,
                            )
                        ||| exists|shapes: Vec<Vec<usize>>| #[trigger]
                            output_shapes_are(&old(self).model, shapes) && arrays_read(
                                Err(e),
                                data.output_data->File_0@,
                                shapes@,
                            )
                    }
                },
            },
    {
        match (&data.input_data, &data.output_data) {
            (WitnessSource::File(of_inputs), WitnessSource::File(of_outputs)) => {
                let input_shapes = self.model.input_shapes();
                let output_shapes = self.model.output_shapes();
                assert(input_shapes_are(&self.model, input_shapes));
                assert(output_shapes_are(&self.model, output_shapes));
                let inputs = self.load_witness_file_data(of_inputs, &input_shapes)?;
                self.inputs = inputs;
                let outputs = self.load_witness_file_data(of_outputs, &output_shapes)?;
                self.outputs = outputs;
                let module_settings = self.modules.settings_from(data);
                self.module_settings = module_settings;
                Ok(())
            },
            _ => Err(CircuitError::OnChainUnavailable),
        }
    }

    /// Loads the inputs `data` from its arrays of quantized values, one
    /// array for each input of the model; they are read by the input shapes
    /// of the model. Nothing but the inputs changes, and nothing at all
    /// where they cannot be read. Data that live on a chain are refused: a
    /// chain is out of reach from here.
    pub fn load_graph_input(&mut self, data: &GraphInput) -> (r: Result<(), CircuitError>)
        ensures
            final(self).model == old(self).model,
            final(self).modules == old(self).modules,
            final(self).settings == old(self).settings,
            final(self).outputs == old(self).outputs,
            final(self).module_settings == old(self).module_settings,
            match (data.input_data, r) {
                (DataSource::OnChain(_), _) => r == Err::<(), CircuitError>(
                    CircuitError::OnChainUnavailable,
                ) && final(self).inputs == old(self).inputs,
                (DataSource::File(arrays), Ok(_)) => exists|shapes: Vec<Vec<usize>>| #[trigger]
                    input_shapes_are(&old(self).model, shapes) && quantized_read(
                        Ok(final(self).inputs),
                        arrays@,
                        shapes@,
                    ),
                (DataSource::File(arrays), Err(e)) => final(self).inputs == old(self).inputs
                    && exists|shapes: Vec<Vec<usize>>| #[trigger]
                    input_shapes_are(&old(self).model, shapes) && quantized_read(
                        Err(e),
                        arrays@,
                        shapes@,
                    ),
            },
    {
        match &data.input_data {
            DataSource::File(arrays) => {
                let shapes = self.model.input_shapes();
                assert(input_shapes_are(&self.model, shapes));
                let inputs = self.load_file_data(arrays, &shapes)?;
                self.inputs = inputs;
                Ok(())
            },
            DataSource::OnChain(_) => Err(CircuitError::OnChainUnavailable),
        }
    }
}

} // verus!
