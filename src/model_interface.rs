//! Validation of a model's input and output tensors against sample arrays.

use vstd::prelude::*;
use crate::ids::TensorId;
use crate::axis_size::{AnyAxisSize, AxisKey, AxisSizeModel, QualifiedAxisId, compatible};
use crate::axes::{InputAxisGroup, OutputAxisGroup, first_repeated, distinct};
use crate::resolver::{
    AxisSizeResolutionError, ResolutionModel, ResolvedSizes, SizeEntry, entries_model, resolution,
    solve, solve_model,
};

verus! {

/// `ndarray_npy::ReadNpyError`, the error of decoding a sample array, carried
/// through unopened.
#[verifier::external_type_specification]
#[verifier::external_body]
pub struct ExReadNpyError(ndarray_npy::ReadNpyError);

/// Where a file is: a URL, or a path inside the model package.
#[derive(Debug)]
pub enum FileReference {
    Url(String),
    Path(String),
}

/// An input tensor of a model.
#[derive(Debug)]
pub struct InputTensorDescr {
    pub id: TensorId,
    pub description: String,
    pub axes: InputAxisGroup,
    pub test_tensor: FileReference,
}

/// An output tensor of a model.
#[derive(Debug)]
pub struct OutputTensorDescr {
    pub id: TensorId,
    pub description: String,
    pub axes: OutputAxisGroup,
    pub test_tensor: FileReference,
}

/// A sample array: its shape, and its data, which is not looked at here.
#[derive(Debug)]
pub struct SampleArray<D> {
    pub shape: Vec<usize>,
    pub data: D,
}

/// Why a model's tensors and sample arrays do not fit together.
#[derive(Debug)]
pub enum TensorValidationError {
    /// A sample array could not be decoded.
    ReadNpyError(ndarray_npy::ReadNpyError),
    /// A sample array is referenced by URL, which is not supported.
    UrlUnsupported,
    /// A sample array's rank differs from the number of axes of its tensor.
    MismatchedNumDimensions { test_tensor_shape: Vec<usize>, num_described_axes: usize },
    /// The sample array's dimension `axis_index`, of extent `expected_extent`,
    /// does not fit the resolved size of the axis.
    IncompatibleAxis { qualified_axis_id: QualifiedAxisId, expected_extent: usize, axis_index: usize },
    /// The declared axis sizes cannot be resolved.
    AxisSizeResolutionError(AxisSizeResolutionError),
    /// Two tensors have this id.
    DuplicateTensorId(TensorId),
    /// The model has no input.
    EmptyInputs,
    /// The model has no output.
    EmptyOutputs,
}

/// A tensor as plain values: its id, each axis's id and declared size, and
/// the shape of its sample array.
pub type TensorModel = (Seq<char>, Seq<(Seq<char>, Option<AxisSizeModel>)>, Seq<usize>);

pub open spec fn input_model<D>(t: (InputTensorDescr, SampleArray<D>)) -> TensorModel {
    (
        t.0.id@,
        t.0.axes@.map_values(|a: crate::axes::InputAxis| (a.id_model(), a.size_model())),
        t.1.shape@,
    )
}

pub open spec fn output_model<D>(t: (OutputTensorDescr, SampleArray<D>)) -> TensorModel {
    (
        t.0.id@,
        t.0.axes@.map_values(|a: crate::axes::OutputAxis| (a.id_model(), a.size_model())),
        t.1.shape@,
    )
}

/// All tensors, inputs first, as plain values.
pub open spec fn tensors_model<D>(
    inputs: Seq<(InputTensorDescr, SampleArray<D>)>,
    outputs: Seq<(OutputTensorDescr, SampleArray<D>)>,
) -> Seq<TensorModel> {
    inputs.map_values(|t: (InputTensorDescr, SampleArray<D>)| input_model(t)) + outputs.map_values(
        |t: (OutputTensorDescr, SampleArray<D>)| output_model(t),
    )
}

/// The declared sizes of the axes of tensor `tid` that have one, in order.
pub open spec fn sized_entries(tid: Seq<char>, axes: Seq<(Seq<char>, Option<AxisSizeModel>)>) -> Seq<
    SizeEntry,
>
    decreases axes.len(),
{
    if axes.len() == 0 {
        Seq::empty()
    } else {
        let rest = sized_entries(tid, axes.drop_last());
        match axes.last().1 {
            Some(size) => rest.push(((tid, axes.last().0), size)),
            None => rest,
        }
    }
}

/// The declared sizes of all axes of all tensors that have one, in order.
pub open spec fn all_entries(ts: Seq<TensorModel>) -> Seq<SizeEntry>
    decreases ts.len(),
{
    if ts.len() == 0 {
        Seq::empty()
    } else {
        all_entries(ts.drop_last()) + sized_entries(ts.last().0, ts.last().1)
    }
}

/// Axis `a` of tensor `t` has a resolved size that the sample array's
/// dimension `a` does not fit.
pub open spec fn axis_incompatible(m: Map<AxisKey, AxisSizeModel>, t: TensorModel, a: int) -> bool {
    let key = (t.0, t.1[a].0);
    &&& t.1[a].1 is Some
    &&& m.contains_key(key)
    &&& !compatible(m[key], t.2[a] as nat)
}

/// Tensor `t` fits its sample array.
pub open spec fn tensor_fits(m: Map<AxisKey, AxisSizeModel>, t: TensorModel) -> bool {
    &&& t.1.len() == t.2.len()
    &&& forall|a: int| 0 <= a < t.1.len() ==> !axis_incompatible(m, t, a)
}

pub open spec fn is_first_unfit(m: Map<AxisKey, AxisSizeModel>, ts: Seq<TensorModel>, t: int) -> bool {
    &&& 0 <= t < ts.len()
    &&& !tensor_fits(m, ts[t])
    &&& forall|t2: int| 0 <= t2 < t ==> tensor_fits(m, ts[t2])
}

pub open spec fn is_first_incompatible(m: Map<AxisKey, AxisSizeModel>, t: TensorModel, a: int) -> bool {
    &&& 0 <= a < t.1.len()
    &&& axis_incompatible(m, t, a)
    &&& forall|a2: int| 0 <= a2 < a ==> !axis_incompatible(m, t, a2)
}

/// Why tensor `t` does not fit its sample array: its rank, or else its first
/// incompatible axis.
pub open spec fn tensor_failure(m: Map<AxisKey, AxisSizeModel>, t: TensorModel) -> ValidationModel {
    if t.1.len() != t.2.len() {
        ValidationModel::MismatchedNumDimensions {
            test_tensor_shape: t.2,
            num_described_axes: t.1.len(),
        }
    } else {
        let a = choose|a: int| is_first_incompatible(m, t, a);
        ValidationModel::IncompatibleAxis {
            qualified_axis_id: (t.0, t.1[a].0),
            expected_extent: t.2[a] as nat,
            axis_index: a as nat,
        }
    }
}

/// The ids of the tensors, in order.
pub open spec fn tensor_ids(ts: Seq<TensorModel>) -> Seq<Seq<char>> {
    ts.map_values(|t: TensorModel| t.0)
}

/// The outcome of validating a model's tensors, as plain values.
pub enum ValidationModel {
    Valid,
    MismatchedNumDimensions { test_tensor_shape: Seq<usize>, num_described_axes: nat },
    IncompatibleAxis { qualified_axis_id: AxisKey, expected_extent: nat, axis_index: nat },
    AxisSizeResolutionError(ResolutionModel),
    DuplicateTensorId(Seq<char>),
    EmptyInputs,
    EmptyOutputs,
    /// A sample array could not be had: never the outcome of validation.
    SampleUnavailable,
}

/// What validating the tensors `ts` (`n_inputs` inputs first, then
/// `n_outputs` outputs) gives. Empty inputs, then empty outputs, then the
/// first tensor id that repeats an earlier one, then the resolution of all
/// declared sizes, then the first tensor that does not fit its sample array:
/// its rank first, then its first incompatible axis.
pub open spec fn validation(ts: Seq<TensorModel>, n_inputs: nat, n_outputs: nat) -> ValidationModel {
    let ids = tensor_ids(ts);
    if n_inputs == 0 {
        ValidationModel::EmptyInputs
    } else if n_outputs == 0 {
        ValidationModel::EmptyOutputs
    } else if !distinct(ids) {
        let j = choose|j: int| first_repeated(ids, j);
        ValidationModel::DuplicateTensorId(ids[j])
    } else {
        match resolution(all_entries(ts)) {
            ResolutionModel::Resolved(m) => {
                if forall|t: int| 0 <= t < ts.len() ==> tensor_fits(m, ts[t]) {
                    ValidationModel::Valid
                } else {
                    let t = choose|t: int| is_first_unfit(m, ts, t);
                    tensor_failure(m, ts[t])
                }
            },
            failure => ValidationModel::AxisSizeResolutionError(failure),
        }
    }
}

/// A model's tensors, each with a sample array that fits it.
#[derive(Debug)]
pub struct ModelInterface<D> {
    inputs: Vec<(InputTensorDescr, SampleArray<D>)>,
    outputs: Vec<(OutputTensorDescr, SampleArray<D>)>,
}

impl<D> ModelInterface<D> {
    pub closed spec fn inputs_view(&self) -> Seq<(InputTensorDescr, SampleArray<D>)> {
        self.inputs@
    }

    pub closed spec fn outputs_view(&self) -> Seq<(OutputTensorDescr, SampleArray<D>)> {
        self.outputs@
    }

    pub fn inputs(&self) -> (r: &Vec<(InputTensorDescr, SampleArray<D>)>)
        ensures
            r@ == self.inputs_view(),
    {
        &self.inputs
    }

    pub fn outputs(&self) -> (r: &Vec<(OutputTensorDescr, SampleArray<D>)>)
        ensures
            r@ == self.outputs_view(),
    {
        &self.outputs
    }
}

pub open spec fn error_model(e: TensorValidationError) -> ValidationModel {
    match e {
        TensorValidationError::MismatchedNumDimensions { test_tensor_shape, num_described_axes } => {
            ValidationModel::MismatchedNumDimensions {
                test_tensor_shape: test_tensor_shape@,
                num_described_axes: num_described_axes as nat,
            }
        },
        TensorValidationError::IncompatibleAxis { qualified_axis_id, expected_extent, axis_index } => {
            ValidationModel::IncompatibleAxis {
                qualified_axis_id: qualified_axis_id@,
                expected_extent: expected_extent as nat,
                axis_index: axis_index as nat,
            }
        },
        TensorValidationError::AxisSizeResolutionError(inner) => {
            ValidationModel::AxisSizeResolutionError(solve_model(Err(inner)))
        },
        TensorValidationError::DuplicateTensorId(id) => ValidationModel::DuplicateTensorId(id@),
        TensorValidationError::EmptyInputs => ValidationModel::EmptyInputs,
        TensorValidationError::EmptyOutputs => ValidationModel::EmptyOutputs,
        _ => ValidationModel::SampleUnavailable,
    }
}

/// The result of `try_build` as plain values.
pub open spec fn build_model<D>(r: Result<ModelInterface<D>, TensorValidationError>) -> ValidationModel {
    match r {
        Ok(_) => ValidationModel::Valid,
        Err(e) => error_model(e),
    }
}

/// The axes of a tensor as (id, declared size) pairs.
pub open spec fn summary_model(v: Seq<(crate::ids::AxisId, Option<AnyAxisSize>)>) -> Seq<
    (Seq<char>, Option<AxisSizeModel>),
> {
    v.map_values(
        |x: (crate::ids::AxisId, Option<AnyAxisSize>)|
            (
                x.0@,
                match x.1 {
                    Some(s) => Some(s@),
                    None => None,
                },
            ),
    )
}

fn input_summary(g: &InputAxisGroup) -> (r: Vec<(crate::ids::AxisId, Option<AnyAxisSize>)>)
    ensures
        summary_model(r@) == g@.map_values(
            |a: crate::axes::InputAxis| (a.id_model(), a.size_model()),
        ),
{
    let axes = g.axes();
    let ghost want = g@.map_values(|a: crate::axes::InputAxis| (a.id_model(), a.size_model()));
    let mut out: Vec<(crate::ids::AxisId, Option<AnyAxisSize>)> = Vec::new();
    let mut k: usize = 0;
    while k < axes.len()
        invariant
            axes@ == g@,
            want == g@.map_values(|a: crate::axes::InputAxis| (a.id_model(), a.size_model())),
            k <= axes.len(),
            out.len() == k,
            forall|m: int| 0 <= m < k ==> summary_model(out@)[m] == want[m],
        decreases axes.len() - k,
    {
        let ghost before = out@;
        out.push((axes[k].id(), axes[k].size()));
        proof {
            assert forall|m: int| 0 <= m < k + 1 implies summary_model(out@)[m] == want[m] by {
                if m < k {
                    assert(out@[m] == before[m]);
                }
            }
        }
        k += 1;
    }
    proof {
        assert(summary_model(out@) =~= want);
    }
    out
}

fn output_summary(g: &OutputAxisGroup) -> (r: Vec<(crate::ids::AxisId, Option<AnyAxisSize>)>)
    ensures
        summary_model(r@) == g@.map_values(
            |a: crate::axes::OutputAxis| (a.id_model(), a.size_model()),
        ),
{
    let axes = g.axes();
    let ghost want = g@.map_values(|a: crate::axes::OutputAxis| (a.id_model(), a.size_model()));
    let mut out: Vec<(crate::ids::AxisId, Option<AnyAxisSize>)> = Vec::new();
    let mut k: usize = 0;
    while k < axes.len()
        invariant
            axes@ == g@,
            want == g@.map_values(|a: crate::axes::OutputAxis| (a.id_model(), a.size_model())),
            k <= axes.len(),
            out.len() == k,
            forall|m: int| 0 <= m < k ==> summary_model(out@)[m] == want[m],
        decreases axes.len() - k,
    {
        let ghost before = out@;
        out.push((axes[k].id(), axes[k].size()));
        proof {
            assert forall|m: int| 0 <= m < k + 1 implies summary_model(out@)[m] == want[m] by {
                if m < k {
                    assert(out@[m] == before[m]);
                }
            }
        }
        k += 1;
    }
    proof {
        assert(summary_model(out@) =~= want);
    }
    out
}

/// Appends the declared sizes of the axes of tensor `tid` that have one.
fn push_sized(
    entries: &mut Vec<(QualifiedAxisId, AnyAxisSize)>,
    tid: &TensorId,
    summary: &Vec<(crate::ids::AxisId, Option<AnyAxisSize>)>,
)
    ensures
        entries_model(final(entries)@) == entries_model(old(entries)@) + sized_entries(
            tid@,
            summary_model(summary@),
        ),
{
    let ghost start = entries_model(entries@);
    let ghost sm = summary_model(summary@);
    let mut k: usize = 0;
    while k < summary.len()
        invariant
            sm == summary_model(summary@),
            k <= summary.len(),
            entries_model(entries@) == start + sized_entries(tid@, sm.take(k as int)),
        decreases summary.len() - k,
    {
        proof {
            assert(sm.take(k + 1).drop_last() =~= sm.take(k as int));
            assert(sm.take(k + 1).last() == sm[k as int]);
        }
        match &summary[k].1 {
            Some(size) => {
                let ghost before = entries@;
                let q = QualifiedAxisId { tensor_id: tid.clone(), axis_id: summary[k].0.clone() };
                entries.push((q, size.clone()));
                proof {
                    assert(entries_model(entries@) =~= entries_model(before).push(
                        ((tid@, sm[k as int].0), size@),
                    ));
                }
            },
            None => {},
        }
        k += 1;
    }
    proof {
        assert(sm.take(summary.len() as int) =~= sm);
    }
}

/// Checks tensor `tid`, whose axes are `summary`, against the shape of its
/// sample array.
fn check_tensor(
    sizes: &ResolvedSizes,
    tid: &TensorId,
    summary: &Vec<(crate::ids::AxisId, Option<AnyAxisSize>)>,
    shape: &Vec<usize>,
) -> (r: Result<(), TensorValidationError>)
    ensures
        r is Ok <==> tensor_fits(sizes@, (tid@, summary_model(summary@), shape@)),
        r matches Err(e) ==> error_model(e) == tensor_failure(
            sizes@,
            (tid@, summary_model(summary@), shape@),
        ),
{
    let ghost t: TensorModel = (tid@, summary_model(summary@), shape@);
    if summary.len() != shape.len() {
        return Err(
            TensorValidationError::MismatchedNumDimensions {
                test_tensor_shape: shape.clone(),
                num_described_axes: summary.len(),
            },
        );
    }
    let mut a: usize = 0;
    while a < summary.len()
        invariant
            t == (tid@, summary_model(summary@), shape@),
            summary.len() == shape.len(),
            a <= summary.len(),
            forall|a2: int| 0 <= a2 < a ==> !axis_incompatible(sizes@, t, a2),
        decreases summary.len() - a,
    {
        if let Some(_) = &summary[a].1 {
            let key = QualifiedAxisId { tensor_id: tid.clone(), axis_id: summary[a].0.clone() };
            if let Some(resolved) = sizes.get(&key) {
                if !resolved.is_compatible_with_extent(shape[a]) {
                    proof {
                        assert(axis_incompatible(sizes@, t, a as int));
                        assert(is_first_incompatible(sizes@, t, a as int));
                        let a2 = choose|a2: int| is_first_incompatible(sizes@, t, a2);
                        assert(a2 == a);
                    }
                    return Err(
                        TensorValidationError::IncompatibleAxis {
                            qualified_axis_id: key,
                            expected_extent: shape[a],
                            axis_index: a,
                        },
                    );
                }
            }
        }
        a += 1;
    }
    Ok(())
}

/// The position of the first id in `ids` that an earlier one repeats.
fn first_repeated_tensor_id(ids: &Vec<TensorId>) -> (r: Option<usize>)
    ensures
        r matches Some(j) ==> first_repeated(ids@.map_values(|t: TensorId| t@), j as int),
        r is None ==> distinct(ids@.map_values(|t: TensorId| t@)),
{
    let ghost v = ids@.map_values(|t: TensorId| t@);
    let mut j: usize = 0;
    while j < ids.len()
        invariant
            v == ids@.map_values(|t: TensorId| t@),
            j <= ids.len(),
            forall|i: int, j2: int| 0 <= i < j2 < j ==> v[i] != v[j2],
        decreases ids.len() - j,
    {
        let mut i: usize = 0;
        while i < j
            invariant
                v == ids@.map_values(|t: TensorId| t@),
                i <= j < ids.len(),
                forall|k: int| 0 <= k < i ==> v[k] != v[j as int],
                forall|a: int, b: int| 0 <= a < b < j ==> v[a] != v[b],
            decreases j - i,
        {
            if ids[i] == ids[j] {
                proof {
                    assert(v[i as int] == v[j as int]);
                }
                return Some(j);
            }
            i += 1;
        }
        j += 1;
    }
    None
}

/// Adding one more tensor adds its sized axes at the end.
proof fn lemma_all_entries_step(ts: Seq<TensorModel>, k: int)
    requires
        0 <= k < ts.len(),
    ensures
        all_entries(ts.take(k + 1)) == all_entries(ts.take(k)) + sized_entries(ts[k].0, ts[k].1),
{
    assert(ts.take(k + 1).drop_last() =~= ts.take(k));
}

impl<D> ModelInterface<D> {
    /// Validates a model's tensors against their sample arrays. Fails, in
    /// this order: with no input; with no output; on the first tensor id
    /// (inputs first) that repeats an earlier one; when the declared axis
    /// sizes cannot be resolved; on the first tensor whose sample array has
    /// another rank than its number of axes, or a dimension that does not fit
    /// the resolved size of its axis.
    pub fn try_build(
        inputs: Vec<(InputTensorDescr, SampleArray<D>)>,
        outputs: Vec<(OutputTensorDescr, SampleArray<D>)>,
    ) -> (r: Result<ModelInterface<D>, TensorValidationError>)
        ensures
            build_model(r) == validation(
                tensors_model(inputs@, outputs@),
                inputs.len() as nat,
                outputs.len() as nat,
            ),
            r matches Ok(mi) ==> mi.inputs_view() == inputs@ && mi.outputs_view() == outputs@,
    {
        let ghost ts = tensors_model(inputs@, outputs@);
        if inputs.len() == 0 {
            return Err(TensorValidationError::EmptyInputs);
        }
        if outputs.len() == 0 {
            return Err(TensorValidationError::EmptyOutputs);
        }
        let mut ids: Vec<TensorId> = Vec::new();
        let mut summaries: Vec<Vec<(crate::ids::AxisId, Option<AnyAxisSize>)>> = Vec::new();
        let mut k: usize = 0;
        while k < inputs.len()
            invariant
                ts == tensors_model(inputs@, outputs@),
                k <= inputs.len(),
                ids.len() == k,
                summaries.len() == k,
                forall|m: int|
                    #![trigger ids@[m]]
                    0 <= m < k ==> ids[m]@ == ts[m].0 && summary_model(summaries[m]@) == ts[m].1,
            decreases inputs.len() - k,
        {
            ids.push(inputs[k].0.id.clone());
            summaries.push(input_summary(&inputs[k].0.axes));
            proof {
                assert(ts[k as int] == input_model(inputs@[k as int]));
            }
            k += 1;
        }
        let mut k: usize = 0;
        while k < outputs.len()
            invariant
                ts == tensors_model(inputs@, outputs@),
                k <= outputs.len(),
                ids.len() == inputs.len() + k,
                summaries.len() == inputs.len() + k,
                forall|m: int|
                    #![trigger ids@[m]]
                    0 <= m < inputs.len() + k ==> ids[m]@ == ts[m].0 && summary_model(
                        summaries[m]@,
                    ) == ts[m].1,
            decreases outputs.len() - k,
        {
            ids.push(outputs[k].0.id.clone());
            summaries.push(output_summary(&outputs[k].0.axes));
            proof {
                assert(ts[inputs.len() + k] == output_model(outputs@[k as int]));
            }
            k += 1;
        }
        let ghost tids = tensor_ids(ts);
        proof {
            assert(ids@.map_values(|t: TensorId| t@) =~= tids) by {
                assert forall|m: int| 0 <= m < ts.len() implies ids@.map_values(|t: TensorId| t@)[m]
                    == tids[m] by {
                    assert(ids@[m]@ == ts[m].0);
                }
            }
        }
        if let Some(j) = first_repeated_tensor_id(&ids) {
            proof {
                let j2 = choose|j2: int| first_repeated(tids, j2);
                assert(first_repeated(tids, j2));
                if j2 < j {
                    let i = choose|i: int| 0 <= i < j2 && tids[i] == tids[j2];
                } else if j < j2 {
                    let i = choose|i: int| 0 <= i < j && tids[i] == tids[j as int];
                }
                assert(j2 == j);
            }
            return Err(TensorValidationError::DuplicateTensorId(ids[j].clone()));
        }
        let mut entries: Vec<(QualifiedAxisId, AnyAxisSize)> = Vec::new();
        let mut k: usize = 0;
        while k < ids.len()
            invariant
                ts == tensors_model(inputs@, outputs@),
                ids.len() == ts.len(),
                summaries.len() == ts.len(),
                forall|m: int|
                    #![trigger ids@[m]]
                    0 <= m < ts.len() ==> ids[m]@ == ts[m].0 && summary_model(summaries[m]@)
                        == ts[m].1,
                k <= ids.len(),
                entries_model(entries@) == all_entries(ts.take(k as int)),
            decreases ids.len() - k,
        {
            push_sized(&mut entries, &ids[k], &summaries[k]);
            proof {
                assert(ids@[k as int]@ == ts[k as int].0);
                lemma_all_entries_step(ts, k as int);
            }
            k += 1;
        }
        proof {
            assert(ts.take(ts.len() as int) =~= ts);
        }
        let sizes = match solve(&entries) {
            Ok(sizes) => sizes,
            Err(e) => {
                return Err(TensorValidationError::AxisSizeResolutionError(e));
            },
        };
        let ghost m = sizes@;
        proof {
            assert(resolution(all_entries(ts)) == ResolutionModel::Resolved(m));
        }
        let mut k: usize = 0;
        while k < ids.len()
            invariant
                ts == tensors_model(inputs@, outputs@),
                ids.len() == ts.len(),
                summaries.len() == ts.len(),
                ts.len() == inputs.len() + outputs.len(),
                forall|m: int|
                    #![trigger ids@[m]]
                    0 <= m < ts.len() ==> ids[m]@ == ts[m].0 && summary_model(summaries[m]@)
                        == ts[m].1,
                m == sizes@,
                resolution(all_entries(ts)) == ResolutionModel::Resolved(m),
                tids == tensor_ids(ts),
                distinct(tids),
                inputs.len() > 0,
                outputs.len() > 0,
                k <= ids.len(),
                forall|t: int| 0 <= t < k ==> tensor_fits(m, ts[t]),
            decreases ids.len() - k,
        {
            let shape = if k < inputs.len() {
                proof {
                    assert(ts[k as int] == input_model(inputs@[k as int]));
                }
                &inputs[k].1.shape
            } else {
                proof {
                    assert(ts[k as int] == output_model(outputs@[k - inputs.len()]));
                }
                &outputs[k - inputs.len()].1.shape
            };
            proof {
                assert(ids@[k as int]@ == ts[k as int].0);
                assert(ts[k as int] == (ids[k as int]@, summary_model(summaries[k as int]@), shape@));
            }
            match check_tensor(&sizes, &ids[k], &summaries[k], shape) {
                Ok(()) => {},
                Err(e) => {
                    proof {
                        assert(is_first_unfit(m, ts, k as int));
                        let t2 = choose|t2: int| is_first_unfit(m, ts, t2);
                        assert(is_first_unfit(m, ts, t2));
                        assert(t2 == k);
                    }
                    return Err(e);
                },
            }
            k += 1;
        }
        Ok(ModelInterface { inputs, outputs })
    }
}

/// A path at the top of a model package: `/` and a 36-character name.
pub open spec fn is_package_path(p: Seq<char>) -> bool {
    p.len() == 37 && p[0] == '/'
}

/// Relies on `uuid::Uuid::new_v4` for a random id, and on the hyphenated
/// text form of a `Uuid`, which is 36 characters long.
#[verifier::external_body]
fn random_file_name() -> (r: String)
    ensures
        r@.len() == 36,
{
    uuid::Uuid::new_v4().hyphenated().to_string()
}

/// A fresh path at the top of the package.
fn fresh_package_path() -> (r: String)
    ensures
        is_package_path(r@),
{
    let name = random_file_name();
    let mut path = "/".to_owned();
    proof {
        reveal_strlit("/");
    }
    path.append(name.as_str());
    path
}

impl<D> ModelInterface<D> {
    /// Prepares the tensors for packaging: each descriptor gets a fresh path
    /// at the top of the package as its sample array's location, and comes
    /// back with the sample array to be written there. Order, ids, axes and
    /// sample arrays are kept.
    pub fn dump(self) -> (r: (
        Vec<(InputTensorDescr, SampleArray<D>)>,
        Vec<(OutputTensorDescr, SampleArray<D>)>,
    ))
        ensures
            r.0.len() == self.inputs_view().len(),
            r.1.len() == self.outputs_view().len(),
            forall|i: int|
                0 <= i < r.0.len() ==> {
                    let (d, a) = #[trigger] r.0[i];
                    let (d0, a0) = self.inputs_view()[i];
                    &&& d.id == d0.id
                    &&& d.description == d0.description
                    &&& d.axes == d0.axes
                    &&& a == a0
                    &&& d.test_tensor matches FileReference::Path(p) && is_package_path(p@)
                },
            forall|i: int|
                0 <= i < r.1.len() ==> {
                    let (d, a) = #[trigger] r.1[i];
                    let (d0, a0) = self.outputs_view()[i];
                    &&& d.id == d0.id
                    &&& d.description == d0.description
                    &&& d.axes == d0.axes
                    &&& a == a0
                    &&& d.test_tensor matches FileReference::Path(p) && is_package_path(p@)
                },
    {
        let ghost ins = self.inputs@;
        let ghost outs = self.outputs@;
        let mut inputs = self.inputs;
        let mut outputs = self.outputs;
        let mut dumped_inputs: Vec<(InputTensorDescr, SampleArray<D>)> = Vec::new();
        let n = inputs.len();
        let mut k: usize = 0;
        while k < n
            invariant
                n == ins.len(),
                k <= n,
                inputs@ == ins.subrange(k as int, n as int),
                dumped_inputs.len() == k,
                forall|i: int|
                    0 <= i < k ==> {
                        let (d, a) = #[trigger] dumped_inputs[i];
                        let (d0, a0) = ins[i];
                        &&& d.id == d0.id
                        &&& d.description == d0.description
                        &&& d.axes == d0.axes
                        &&& a == a0
                        &&& d.test_tensor matches FileReference::Path(p) && is_package_path(p@)
                    },
            decreases n - k,
        {
            let (mut descr, array) = inputs.remove(0);
            descr.test_tensor = FileReference::Path(fresh_package_path());
            dumped_inputs.push((descr, array));
            k += 1;
            proof {
                assert(inputs@ =~= ins.subrange(k as int, n as int));
            }
        }
        let mut dumped_outputs: Vec<(OutputTensorDescr, SampleArray<D>)> = Vec::new();
        let n = outputs.len();
        let mut k: usize = 0;
        while k < n
            invariant
                n == outs.len(),
                k <= n,
                outputs@ == outs.subrange(k as int, n as int),
                dumped_outputs.len() == k,
                forall|i: int|
                    0 <= i < k ==> {
                        let (d, a) = #[trigger] dumped_outputs[i];
                        let (d0, a0) = outs[i];
                        &&& d.id == d0.id
                        &&& d.description == d0.description
                        &&& d.axes == d0.axes
                        &&& a == a0
                        &&& d.test_tensor matches FileReference::Path(p) && is_package_path(p@)
                    },
            decreases n - k,
        {
            let (mut descr, array) = outputs.remove(0);
            descr.test_tensor = FileReference::Path(fresh_package_path());
            dumped_outputs.push((descr, array));
            k += 1;
            proof {
                assert(outputs@ =~= outs.subrange(k as int, n as int));
            }
        }
        (dumped_inputs, dumped_outputs)
    }
}

/// Where some id repeats an earlier one, a first such id exists.
proof fn lemma_first_repeated_exists(ids: Seq<Seq<char>>, b: int)
    requires
        0 <= b < ids.len(),
        exists|i: int| 0 <= i < b && ids[i] == ids[b],
    ensures
        exists|j: int| 0 <= j <= b && first_repeated(ids, j),
    decreases b,
{
    if exists|j2: int, i: int| 0 <= i < j2 < b && ids[i] == ids[j2] {
        let (j2, i) = choose|j2: int, i: int| 0 <= i < j2 < b && ids[i] == ids[j2];
        lemma_first_repeated_exists(ids, j2);
    } else {
        assert(first_repeated(ids, b));
    }
}

/// Two tensors with the same id, an input and an output or any other pair,
/// make validation fail with a repeated tensor id (once there is at least
/// one input and one output); the id reported is the first repeated one.
pub proof fn lemma_shared_tensor_id_rejected(
    ts: Seq<TensorModel>,
    n_inputs: nat,
    n_outputs: nat,
    a: int,
    b: int,
)
    requires
        n_inputs > 0,
        n_outputs > 0,
        0 <= a < b < ts.len(),
        ts[a].0 == ts[b].0,
    ensures
        validation(ts, n_inputs, n_outputs) matches ValidationModel::DuplicateTensorId(id) && exists|
            j: int,
        | 0 <= j <= b && first_repeated(tensor_ids(ts), j) && id == ts[j].0,
{
    let ids = tensor_ids(ts);
    assert(ids[a] == ids[b]);
    lemma_first_repeated_exists(ids, b);
    let j = choose|j: int| first_repeated(ids, j);
    let j0 = choose|j0: int| 0 <= j0 <= b && first_repeated(ids, j0);
    if j < j0 {
        let i = choose|i: int| 0 <= i < j && ids[i] == ids[j];
        assert(ids[i] != ids[j]);
    } else if j0 < j {
        let i = choose|i: int| 0 <= i < j0 && ids[i] == ids[j0];
        assert(ids[i] != ids[j0]);
    }
}

} // verus!
