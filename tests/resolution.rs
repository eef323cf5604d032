use bioimg::axis_size::{
    AnyAxisSize, AxisSizeReference, FixedAxisSize, ParameterizedAxisSize, QualifiedAxisId,
    ResolvedAxisSize,
};
use bioimg::ids::{AxisId, TensorId};
use bioimg::resolver::{solve, AxisSizeResolutionError};

fn qid(tensor: &str, axis: &str) -> QualifiedAxisId {
    QualifiedAxisId {
        tensor_id: TensorId::new(tensor).unwrap(),
        axis_id: AxisId::new(axis).unwrap(),
    }
}

fn fixed(n: usize) -> AnyAxisSize {
    AnyAxisSize::Fixed(FixedAxisSize::new(n).unwrap())
}

fn param(min: usize, step: usize) -> AnyAxisSize {
    AnyAxisSize::Parameterized(ParameterizedAxisSize {
        min: FixedAxisSize::new(min).unwrap(),
        step: FixedAxisSize::new(step).unwrap(),
    })
}

fn reference(tensor: &str, axis: &str, offset: usize) -> AnyAxisSize {
    AnyAxisSize::Reference(AxisSizeReference { qualified_axis_id: qid(tensor, axis), offset })
}

fn extent_of(size: ResolvedAxisSize) -> usize {
    match size {
        ResolvedAxisSize::Fixed(n) => n.get(),
        ResolvedAxisSize::Parameterized(_) => panic!("expected a fixed size"),
    }
}

fn min_step_of(size: ResolvedAxisSize) -> (usize, usize) {
    match size {
        ResolvedAxisSize::Parameterized(p) => (p.min.get(), p.step.get()),
        ResolvedAxisSize::Fixed(_) => panic!("expected a parameterized size"),
    }
}

#[test]
fn acyclic_graph_resolves_every_axis() {
    let pairs = vec![
        (qid("a", "x"), fixed(3)),
        (qid("a", "y"), reference("a", "x", 2)),
        (qid("b", "x"), param(4, 2)),
        (qid("b", "y"), reference("b", "x", 0)),
    ];
    let sizes = solve(&pairs).unwrap();
    assert_eq!(sizes.len(), 4);
    assert_eq!(extent_of(sizes.get(&qid("a", "x")).unwrap()), 3);
    assert_eq!(extent_of(sizes.get(&qid("a", "y")).unwrap()), 5);
    assert_eq!(min_step_of(sizes.get(&qid("b", "x")).unwrap()), (4, 2));
    assert_eq!(min_step_of(sizes.get(&qid("b", "y")).unwrap()), (4, 2));
    assert!(sizes.get(&qid("c", "x")).is_none());
}

#[test]
fn empty_input_resolves_to_empty_map() {
    let sizes = solve(&vec![]).unwrap();
    assert_eq!(sizes.len(), 0);
}

#[test]
fn chain_offsets_add_up_on_fixed_root() {
    let pairs = vec![
        (qid("t", "d"), reference("t", "c", 4)),
        (qid("t", "c"), reference("t", "b", 2)),
        (qid("t", "b"), reference("t", "a", 1)),
        (qid("t", "a"), fixed(10)),
    ];
    let sizes = solve(&pairs).unwrap();
    assert_eq!(extent_of(sizes.get(&qid("t", "d")).unwrap()), 17);
    assert_eq!(extent_of(sizes.get(&qid("t", "c")).unwrap()), 13);
    assert_eq!(extent_of(sizes.get(&qid("t", "b")).unwrap()), 11);
}

#[test]
fn chain_keeps_step_of_parameterized_root() {
    let pairs = vec![
        (qid("t", "a"), param(7, 3)),
        (qid("u", "b"), reference("t", "a", 5)),
        (qid("v", "c"), reference("u", "b", 6)),
    ];
    let sizes = solve(&pairs).unwrap();
    assert_eq!(min_step_of(sizes.get(&qid("u", "b")).unwrap()), (12, 3));
    assert_eq!(min_step_of(sizes.get(&qid("v", "c")).unwrap()), (18, 3));
}

#[test]
fn forward_reference_within_a_tensor() {
    let pairs = vec![(qid("t", "y"), reference("t", "x", 1)), (qid("t", "x"), fixed(2))];
    let sizes = solve(&pairs).unwrap();
    assert_eq!(extent_of(sizes.get(&qid("t", "y")).unwrap()), 3);
}

fn cycle_names(err: AxisSizeResolutionError) -> Vec<String> {
    match err {
        AxisSizeResolutionError::CyclicReference { cycle } => cycle
            .iter()
            .map(|q| format!("{}.{}", q.tensor_id.as_str(), q.axis_id.as_str()))
            .collect(),
        other => panic!("expected a cycle, got {:?}", other),
    }
}

#[test]
fn self_reference_is_a_cycle_of_length_one() {
    let pairs = vec![(qid("t", "x"), fixed(1)), (qid("t", "a"), reference("t", "a", 0))];
    let err = solve(&pairs).unwrap_err();
    assert_eq!(cycle_names(err), vec!["t.a"]);
}

#[test]
fn cycle_of_length_two() {
    let pairs = vec![(qid("t", "a"), reference("u", "b", 1)), (qid("u", "b"), reference("t", "a", 1))];
    let err = solve(&pairs).unwrap_err();
    assert_eq!(cycle_names(err), vec!["t.a", "u.b"]);
}

#[test]
fn cycle_of_length_three() {
    let pairs = vec![
        (qid("t", "a"), reference("t", "b", 0)),
        (qid("t", "b"), reference("t", "c", 0)),
        (qid("t", "c"), reference("t", "a", 0)),
    ];
    let err = solve(&pairs).unwrap_err();
    assert_eq!(cycle_names(err), vec!["t.a", "t.b", "t.c"]);
}

#[test]
fn chain_into_a_cycle_reports_the_cycle_only() {
    let pairs = vec![
        (qid("t", "x"), reference("t", "a", 0)),
        (qid("t", "a"), reference("t", "b", 0)),
        (qid("t", "b"), reference("t", "a", 0)),
    ];
    let err = solve(&pairs).unwrap_err();
    assert_eq!(cycle_names(err), vec!["t.a", "t.b"]);
}

#[test]
fn dangling_reference_names_referrer_and_target() {
    let pairs = vec![(qid("t", "x"), fixed(1)), (qid("t", "y"), reference("nope", "z", 3))];
    match solve(&pairs).unwrap_err() {
        AxisSizeResolutionError::DanglingReference { referrer, missing_target } => {
            assert_eq!(referrer, qid("t", "y"));
            assert_eq!(missing_target, qid("nope", "z"));
        }
        other => panic!("expected a dangling reference, got {:?}", other),
    }
}

#[test]
fn dangling_reference_is_reported_before_a_cycle() {
    let pairs = vec![
        (qid("t", "a"), reference("t", "a", 0)),
        (qid("t", "b"), reference("t", "missing", 0)),
    ];
    assert!(matches!(
        solve(&pairs).unwrap_err(),
        AxisSizeResolutionError::DanglingReference { .. }
    ));
}

#[test]
fn duplicate_axis_is_rejected() {
    let pairs = vec![(qid("t", "x"), fixed(1)), (qid("t", "x"), fixed(2))];
    match solve(&pairs).unwrap_err() {
        AxisSizeResolutionError::DuplicateAxisId { qualified_axis_id } => {
            assert_eq!(qualified_axis_id, qid("t", "x"))
        }
        other => panic!("expected a duplicate, got {:?}", other),
    }
}

#[test]
fn size_beyond_usize_is_reported() {
    let pairs = vec![(qid("t", "x"), fixed(usize::MAX)), (qid("t", "y"), reference("t", "x", 1))];
    match solve(&pairs).unwrap_err() {
        AxisSizeResolutionError::SizeOverflow { qualified_axis_id } => {
            assert_eq!(qualified_axis_id, qid("t", "y"))
        }
        other => panic!("expected an overflow, got {:?}", other),
    }
}

#[test]
fn largest_size_still_fits() {
    let pairs = vec![(qid("t", "x"), fixed(usize::MAX - 1)), (qid("t", "y"), reference("t", "x", 1))];
    let sizes = solve(&pairs).unwrap();
    assert_eq!(extent_of(sizes.get(&qid("t", "y")).unwrap()), usize::MAX);
}

#[test]
fn zero_is_not_a_size() {
    assert!(FixedAxisSize::new(0).is_none());
    assert_eq!(FixedAxisSize::new(1).unwrap().get(), 1);
}

#[test]
fn empty_ids_are_rejected() {
    assert!(TensorId::new("").is_none());
    assert!(AxisId::new("").is_none());
    assert_eq!(TensorId::new("input0").unwrap().as_str(), "input0");
}

#[test]
fn parameterized_size_compatibility() {
    let size = ResolvedAxisSize::Parameterized(ParameterizedAxisSize {
        min: FixedAxisSize::new(4).unwrap(),
        step: FixedAxisSize::new(3).unwrap(),
    });
    for e in [4, 7, 10, 13] {
        assert!(size.is_compatible_with_extent(e), "extent {}", e);
    }
    for e in [3, 5, 6, 11] {
        assert!(!size.is_compatible_with_extent(e), "extent {}", e);
    }
}

#[test]
fn fixed_size_compatibility() {
    let size = ResolvedAxisSize::Fixed(FixedAxisSize::new(5).unwrap());
    assert!(size.is_compatible_with_extent(5));
    assert!(!size.is_compatible_with_extent(4));
    assert!(!size.is_compatible_with_extent(6));
}

#[test]
fn end_to_end_sizes_resolve_across_tensors() {
    let pairs = vec![
        (qid("input0", "x"), param(10, 2)),
        (qid("output0", "x"), reference("input0", "x", 4)),
    ];
    let sizes = solve(&pairs).unwrap();
    assert_eq!(min_step_of(sizes.get(&qid("input0", "x")).unwrap()), (10, 2));
    assert_eq!(min_step_of(sizes.get(&qid("output0", "x")).unwrap()), (14, 2));
    let out = sizes.get(&qid("output0", "x")).unwrap();
    assert!(out.is_compatible_with_extent(18));
    assert!(sizes.get(&qid("input0", "x")).unwrap().is_compatible_with_extent(14));
}
