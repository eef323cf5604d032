use bioimg::axes::{AxisType, BatchAxis, InputAxis, SpaceInputAxis};
use bioimg::axis_size::{
    AnyAxisSize, AxisSizeReference, FixedAxisSize, ParameterizedAxisSize, QualifiedAxisId,
};
use bioimg::ids::{AxisId, TensorId};
use bioimg::widgets::axis_size_widget::{AnyAxisSizeWidget, AxisSizeMode};
use bioimg::widgets::input_axis_widget::{ChannelAxisWidget, InputAxisWidget};
use bioimg::widgets::task::TaskResult;
use bioimg::widgets::StagingError;

#[test]
fn size_form_round_trips_a_reference() {
    let mut w = AnyAxisSizeWidget::default();
    w.set_value(AnyAxisSize::Reference(AxisSizeReference {
        qualified_axis_id: QualifiedAxisId {
            tensor_id: TensorId::new("input0").unwrap(),
            axis_id: AxisId::new("x").unwrap(),
        },
        offset: 4,
    }));
    assert_eq!(w.mode, AxisSizeMode::Reference);
    match w.state().unwrap() {
        AnyAxisSize::Reference(r) => {
            assert_eq!(r.qualified_axis_id.tensor_id.as_str(), "input0");
            assert_eq!(r.qualified_axis_id.axis_id.as_str(), "x");
            assert_eq!(r.offset, 4);
        }
        other => panic!("expected a reference, got {:?}", other),
    }
}

#[test]
fn size_form_round_trips_a_parameterized_size() {
    let mut w = AnyAxisSizeWidget::default();
    w.set_value(AnyAxisSize::Parameterized(ParameterizedAxisSize {
        min: FixedAxisSize::new(4).unwrap(),
        step: FixedAxisSize::new(3).unwrap(),
    }));
    match w.state().unwrap() {
        AnyAxisSize::Parameterized(p) => assert_eq!((p.min.get(), p.step.get()), (4, 3)),
        other => panic!("expected a parameterized size, got {:?}", other),
    }
}

#[test]
fn default_size_form_does_not_parse() {
    let w = AnyAxisSizeWidget::default();
    assert_eq!(w.mode, AxisSizeMode::Fixed);
    assert_eq!(w.state().unwrap_err(), StagingError::ZeroExtent);
}

#[test]
fn reference_form_needs_ids() {
    let mut w = AnyAxisSizeWidget::default();
    w.mode = AxisSizeMode::Reference;
    assert_eq!(w.state().unwrap_err(), StagingError::EmptyTensorId);
    w.staging_size_ref.staging_tensor_id = "t".to_owned();
    assert_eq!(w.state().unwrap_err(), StagingError::EmptyAxisId);
}

#[test]
fn prefil_sets_parameterized_minimum() {
    let mut w = AnyAxisSizeWidget::default();
    w.staging_parameterized.staging_step = 8;
    w.prefil_parameterized(64);
    assert_eq!(w.mode, AxisSizeMode::Parameterized);
    assert_eq!(w.staging_fixed_size, 64);
    match w.state().unwrap() {
        AnyAxisSize::Parameterized(p) => assert_eq!((p.min.get(), p.step.get()), (64, 8)),
        other => panic!("expected a parameterized size, got {:?}", other),
    }
}

#[test]
fn input_axis_form_round_trips() {
    let axis = InputAxis::Space(SpaceInputAxis {
        id: AxisId::new("y").unwrap(),
        description: "rows".to_owned(),
        size: AnyAxisSize::Fixed(FixedAxisSize::new(7).unwrap()),
    });
    let w = InputAxisWidget::new(Some(axis));
    assert_eq!(w.axis_type, AxisType::Space);
    match w.state().unwrap() {
        InputAxis::Space(a) => {
            assert_eq!(a.id.as_str(), "y");
            assert_eq!(a.description, "rows");
        }
        other => panic!("expected a space axis, got {:?}", other),
    }
}

#[test]
fn input_axis_form_batch() {
    let axis = InputAxis::Batch(BatchAxis { id: AxisId::new("batch").unwrap(), description: String::new() });
    let w = InputAxisWidget::new(Some(axis));
    assert_eq!(w.axis_type, AxisType::Batch);
    assert!(matches!(w.state().unwrap(), InputAxis::Batch(_)));
}

#[test]
fn empty_input_axis_form_needs_an_id() {
    let mut w = InputAxisWidget::new(None);
    assert_eq!(w.axis_type, AxisType::Space);
    assert_eq!(w.state().unwrap_err(), StagingError::EmptyAxisId);
    w.space_axis_widget.id_widget = "x".to_owned();
    w.space_axis_widget.prefil_parameterized_size(16);
    assert_eq!(w.space_axis_widget.physical_scale_widget.raw_scale, "1");
    assert_eq!(w.state().unwrap_err(), StagingError::ZeroExtent);
    w.space_axis_widget.size_widget.staging_parameterized.staging_step = 16;
    assert!(w.state().is_ok());
}

#[test]
fn task_messages() {
    match TaskResult::<()>::ok_message("saved".to_owned()) {
        TaskResult::Notification(Ok(m)) => assert_eq!(m, "saved"),
        _ => panic!("expected a success message"),
    }
    match TaskResult::<()>::err_message("failed".to_owned()) {
        TaskResult::Notification(Err(m)) => assert_eq!(m, "failed"),
        _ => panic!("expected a failure message"),
    }
}

#[test]
fn channel_form_needs_channels() {
    let mut w = ChannelAxisWidget {
        id_widget: "channel".to_owned(),
        description_widget: String::new(),
        channel_names: vec![],
    };
    assert_eq!(w.state().unwrap_err(), StagingError::NoChannels);
    w.channel_names = vec!["red".to_owned(), "green".to_owned()];
    assert_eq!(w.state().unwrap().size().get(), 2);
    w.id_widget.clear();
    assert_eq!(w.state().unwrap_err(), StagingError::EmptyAxisId);
}
