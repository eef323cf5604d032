use bioimg::axes::{
    AxisType, BatchAxis, ChannelAxis, HaloedOutputSpacetimeSize, IndexAxis, OutputAxis,
    OutputSpacetimeSize, StandardOutputSpacetimeSize, TimeOutputAxis,
};
use bioimg::axis_size::{AnyAxisSize, FixedAxisSize, FixedOrRefAxisSize, ParameterizedAxisSize};
use bioimg::ids::AxisId;

fn five() -> FixedAxisSize {
    FixedAxisSize::new(5).unwrap()
}

#[test]
fn haloed_size_drops_the_halo() {
    let size = OutputSpacetimeSize::Haloed(HaloedOutputSpacetimeSize {
        size: FixedOrRefAxisSize::Fixed(five()),
        halo: 2,
    });
    assert!(matches!(size.size(), AnyAxisSize::Fixed(n) if n.get() == 5));
    let standard = OutputSpacetimeSize::Standard(StandardOutputSpacetimeSize { size: AnyAxisSize::Fixed(five()) });
    assert!(matches!(standard.size(), AnyAxisSize::Fixed(n) if n.get() == 5));
}

#[test]
fn output_axis_kinds_ids_and_sizes() {
    let batch = OutputAxis::Batch(BatchAxis { id: AxisId::new("batch").unwrap(), description: String::new() });
    assert_eq!(batch.axis_type(), AxisType::Batch);
    assert!(batch.size().is_none());
    assert_eq!(batch.id().as_str(), "batch");

    let channel = OutputAxis::Channel(
        ChannelAxis::new(AxisId::new("c").unwrap(), String::new(), vec!["a".to_owned(), "b".to_owned(), "c".to_owned()])
            .unwrap(),
    );
    assert_eq!(channel.axis_type(), AxisType::Channel);
    assert!(matches!(channel.size(), Some(AnyAxisSize::Fixed(n)) if n.get() == 3));

    let index = OutputAxis::Index(IndexAxis {
        id: AxisId::new("i").unwrap(),
        description: String::new(),
        size: AnyAxisSize::Parameterized(ParameterizedAxisSize { min: five(), step: five() }),
    });
    assert_eq!(index.axis_type(), AxisType::Index);
    assert!(matches!(index.size(), Some(AnyAxisSize::Parameterized(_))));

    let time = OutputAxis::Time(TimeOutputAxis {
        id: AxisId::new("t").unwrap(),
        description: String::new(),
        size: OutputSpacetimeSize::from(AnyAxisSize::Fixed(five())),
    });
    assert_eq!(time.axis_type(), AxisType::Time);
    assert_eq!(time.id().as_str(), "t");
}

#[test]
fn channel_axis_needs_a_channel() {
    assert!(ChannelAxis::new(AxisId::new("c").unwrap(), String::new(), vec![]).is_none());
}

#[test]
fn size_conversions() {
    let any = AnyAxisSize::from(FixedOrRefAxisSize::Fixed(five()));
    assert!(matches!(any, AnyAxisSize::Fixed(n) if n.get() == 5));
    let param = AnyAxisSize::Parameterized(ParameterizedAxisSize { min: five(), step: five() });
    assert!(FixedOrRefAxisSize::try_from(param).is_err());
    assert!(FixedOrRefAxisSize::try_from(AnyAxisSize::Fixed(five())).is_ok());
    let resolved = bioimg::axis_size::ResolvedAxisSize::Fixed(five());
    assert!(matches!(AnyAxisSize::from(resolved), AnyAxisSize::Fixed(_)));
}
