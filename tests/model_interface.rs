use bioimg::axes::{
    BatchAxis, InputAxis, InputAxisGroup, OutputAxis, OutputAxisGroup, OutputSpacetimeSize,
    SpaceInputAxis, SpaceOutputAxis,
};
use bioimg::axis_size::{
    AnyAxisSize, AxisSizeReference, FixedAxisSize, ParameterizedAxisSize, QualifiedAxisId,
};
use bioimg::ids::{AxisId, TensorId};
use bioimg::model_interface::{
    FileReference, InputTensorDescr, ModelInterface, OutputTensorDescr, SampleArray,
    TensorValidationError,
};
use bioimg::resolver::AxisSizeResolutionError;

fn aid(s: &str) -> AxisId {
    AxisId::new(s).unwrap()
}

fn tid(s: &str) -> TensorId {
    TensorId::new(s).unwrap()
}

fn fixed(n: usize) -> AnyAxisSize {
    AnyAxisSize::Fixed(FixedAxisSize::new(n).unwrap())
}

fn param(min: usize, step: usize) -> AnyAxisSize {
    AnyAxisSize::Parameterized(ParameterizedAxisSize {
        min: FixedAxisSize::new(min).unwrap(),
        step: FixedAxisSize::new(step).unwrap(),
    })
}

fn reference(tensor: &str, axis: &str, offset: usize) -> AnyAxisSize {
    AnyAxisSize::Reference(AxisSizeReference {
        qualified_axis_id: QualifiedAxisId { tensor_id: tid(tensor), axis_id: aid(axis) },
        offset,
    })
}

fn space_in(id: &str, size: AnyAxisSize) -> InputAxis {
    InputAxis::Space(SpaceInputAxis { id: aid(id), description: String::new(), size })
}

fn space_out(id: &str, size: AnyAxisSize) -> OutputAxis {
    OutputAxis::Space(SpaceOutputAxis {
        id: aid(id),
        description: String::new(),
        size: OutputSpacetimeSize::from(size),
    })
}

fn input(id: &str, axes: Vec<InputAxis>, shape: Vec<usize>) -> (InputTensorDescr, SampleArray<()>) {
    (
        InputTensorDescr {
            id: tid(id),
            description: String::new(),
            axes: InputAxisGroup::try_new(axes).unwrap(),
            test_tensor: FileReference::Path(format!("{}.npy", id)),
        },
        SampleArray { shape, data: () },
    )
}

fn output(id: &str, axes: Vec<OutputAxis>, shape: Vec<usize>) -> (OutputTensorDescr, SampleArray<()>) {
    (
        OutputTensorDescr {
            id: tid(id),
            description: String::new(),
            axes: OutputAxisGroup::try_new(axes).unwrap(),
            test_tensor: FileReference::Path(format!("{}.npy", id)),
        },
        SampleArray { shape, data: () },
    )
}

#[test]
fn no_inputs_is_rejected() {
    let outputs = vec![output("out", vec![space_out("x", fixed(2))], vec![2])];
    let err = ModelInterface::try_build(vec![], outputs).unwrap_err();
    assert!(matches!(err, TensorValidationError::EmptyInputs));
}

#[test]
fn no_inputs_is_reported_before_no_outputs() {
    let err = ModelInterface::<()>::try_build(vec![], vec![]).unwrap_err();
    assert!(matches!(err, TensorValidationError::EmptyInputs));
}

#[test]
fn no_outputs_is_rejected() {
    let inputs = vec![input("in", vec![space_in("x", fixed(2))], vec![2])];
    let err = ModelInterface::try_build(inputs, vec![]).unwrap_err();
    assert!(matches!(err, TensorValidationError::EmptyOutputs));
}

#[test]
fn input_and_output_with_the_same_id_are_rejected() {
    let inputs = vec![input("t", vec![space_in("x", fixed(2))], vec![2])];
    let outputs = vec![output("t", vec![space_out("x", fixed(2))], vec![2])];
    match ModelInterface::try_build(inputs, outputs).unwrap_err() {
        TensorValidationError::DuplicateTensorId(id) => assert_eq!(id.as_str(), "t"),
        other => panic!("expected a duplicate id, got {:?}", other),
    }
}

#[test]
fn rank_below_axis_count_is_rejected() {
    let inputs = vec![input(
        "in",
        vec![space_in("x", fixed(2)), space_in("y", fixed(2)), space_in("z", fixed(2))],
        vec![2, 2],
    )];
    let outputs = vec![output("out", vec![space_out("x", fixed(2))], vec![2])];
    match ModelInterface::try_build(inputs, outputs).unwrap_err() {
        TensorValidationError::MismatchedNumDimensions { test_tensor_shape, num_described_axes } => {
            assert_eq!(num_described_axes, 3);
            assert_eq!(test_tensor_shape, vec![2, 2]);
        }
        other => panic!("expected a rank mismatch, got {:?}", other),
    }
}

#[test]
fn rank_above_axis_count_is_rejected() {
    let inputs = vec![input("in", vec![space_in("x", fixed(2))], vec![2, 2])];
    let outputs = vec![output("out", vec![space_out("x", fixed(2))], vec![2])];
    match ModelInterface::try_build(inputs, outputs).unwrap_err() {
        TensorValidationError::MismatchedNumDimensions { num_described_axes, .. } => {
            assert_eq!(num_described_axes, 1)
        }
        other => panic!("expected a rank mismatch, got {:?}", other),
    }
}

#[test]
fn fixed_axis_with_other_extent_is_incompatible() {
    let inputs = vec![input("in", vec![space_in("y", fixed(3)), space_in("x", fixed(5))], vec![3, 4])];
    let outputs = vec![output("out", vec![space_out("x", fixed(2))], vec![2])];
    match ModelInterface::try_build(inputs, outputs).unwrap_err() {
        TensorValidationError::IncompatibleAxis { qualified_axis_id, expected_extent, axis_index } => {
            assert_eq!(expected_extent, 4);
            assert_eq!(axis_index, 1);
            assert_eq!(qualified_axis_id.tensor_id.as_str(), "in");
            assert_eq!(qualified_axis_id.axis_id.as_str(), "x");
        }
        other => panic!("expected an incompatible axis, got {:?}", other),
    }
}

#[test]
fn fixed_axis_with_same_extent_is_accepted() {
    let inputs = vec![input("in", vec![space_in("x", fixed(5))], vec![5])];
    let outputs = vec![output("out", vec![space_out("x", fixed(2))], vec![2])];
    assert!(ModelInterface::try_build(inputs, outputs).is_ok());
}

#[test]
fn batch_axis_fits_any_extent() {
    let inputs = vec![input(
        "in",
        vec![
            InputAxis::Batch(BatchAxis { id: aid("batch"), description: String::new() }),
            space_in("x", fixed(5)),
        ],
        vec![17, 5],
    )];
    let outputs = vec![output("out", vec![space_out("x", fixed(2))], vec![2])];
    assert!(ModelInterface::try_build(inputs, outputs).is_ok());
}

#[test]
fn resolution_errors_are_wrapped() {
    let inputs = vec![input("in", vec![space_in("x", reference("in", "missing", 0))], vec![5])];
    let outputs = vec![output("out", vec![space_out("x", fixed(2))], vec![2])];
    match ModelInterface::try_build(inputs, outputs).unwrap_err() {
        TensorValidationError::AxisSizeResolutionError(
            AxisSizeResolutionError::DanglingReference { referrer, missing_target },
        ) => {
            assert_eq!(referrer.axis_id.as_str(), "x");
            assert_eq!(missing_target.axis_id.as_str(), "missing");
        }
        other => panic!("expected a dangling reference, got {:?}", other),
    }
}

#[test]
fn reference_to_batch_axis_is_dangling() {
    let inputs = vec![input(
        "in",
        vec![
            InputAxis::Batch(BatchAxis { id: aid("batch"), description: String::new() }),
            space_in("x", reference("in", "batch", 0)),
        ],
        vec![1, 5],
    )];
    let outputs = vec![output("out", vec![space_out("x", fixed(2))], vec![2])];
    assert!(matches!(
        ModelInterface::try_build(inputs, outputs).unwrap_err(),
        TensorValidationError::AxisSizeResolutionError(
            AxisSizeResolutionError::DanglingReference { .. }
        )
    ));
}

#[test]
fn end_to_end_reference_across_tensors() {
    let inputs = vec![input("input0", vec![space_in("x", param(10, 2))], vec![14])];
    let outputs = vec![output("output0", vec![space_out("x", reference("input0", "x", 4))], vec![18])];
    let model = ModelInterface::try_build(inputs, outputs).unwrap();
    assert_eq!(model.inputs().len(), 1);
    assert_eq!(model.outputs().len(), 1);
    assert_eq!(model.outputs()[0].0.id.as_str(), "output0");
}

#[test]
fn end_to_end_output_below_shifted_minimum_is_rejected() {
    let inputs = vec![input("input0", vec![space_in("x", param(10, 2))], vec![14])];
    let outputs = vec![output("output0", vec![space_out("x", reference("input0", "x", 4))], vec![12])];
    match ModelInterface::try_build(inputs, outputs).unwrap_err() {
        TensorValidationError::IncompatibleAxis { expected_extent, axis_index, .. } => {
            assert_eq!(expected_extent, 12);
            assert_eq!(axis_index, 0);
        }
        other => panic!("expected an incompatible axis, got {:?}", other),
    }
}

#[test]
fn end_to_end_output_off_step_is_rejected() {
    let inputs = vec![input("input0", vec![space_in("x", param(10, 2))], vec![14])];
    let outputs = vec![output("output0", vec![space_out("x", reference("input0", "x", 4))], vec![17])];
    assert!(matches!(
        ModelInterface::try_build(inputs, outputs).unwrap_err(),
        TensorValidationError::IncompatibleAxis { expected_extent: 17, .. }
    ));
}

#[test]
fn dump_gives_each_sample_a_fresh_package_path() {
    let inputs = vec![input("input0", vec![space_in("x", param(10, 2))], vec![14])];
    let outputs = vec![output("output0", vec![space_out("x", reference("input0", "x", 4))], vec![18])];
    let model = ModelInterface::try_build(inputs, outputs).unwrap();
    let (ins, outs) = model.dump();
    assert_eq!(ins.len(), 1);
    assert_eq!(outs.len(), 1);
    let mut paths = Vec::new();
    for p in [&ins[0].0.test_tensor, &outs[0].0.test_tensor] {
        match p {
            FileReference::Path(p) => {
                assert_eq!(p.chars().count(), 37);
                assert!(p.starts_with('/'));
                assert_ne!(p, "/input0.npy");
                paths.push(p.clone());
            }
            FileReference::Url(_) => panic!("expected a path"),
        }
    }
    assert_ne!(paths[0], paths[1]);
    assert_eq!(ins[0].0.id.as_str(), "input0");
    assert_eq!(ins[0].1.shape, vec![14]);
    assert_eq!(outs[0].1.shape, vec![18]);
}

#[test]
fn axis_group_needs_axes_with_distinct_ids() {
    assert!(InputAxisGroup::try_new(vec![]).is_err());
    let dup = InputAxisGroup::try_new(vec![space_in("x", fixed(1)), space_in("x", fixed(2))]);
    match dup {
        Err(bioimg::axes::AxisGroupError::DuplicateAxisId(id)) => assert_eq!(id.as_str(), "x"),
        other => panic!("expected a duplicate, got {:?}", other),
    }
    assert_eq!(InputAxisGroup::try_new(vec![space_in("x", fixed(1))]).unwrap().len(), 1);
}
