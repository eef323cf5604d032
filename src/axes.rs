//! The axes of input and output tensors, and the groups of axes a tensor has.

use vstd::prelude::*;
use crate::ids::AxisId;
use crate::axis_size::{AnyAxisSize, AxisSizeModel, FixedAxisSize, FixedOrRefAxisSize};

verus! {

/// The kind of an axis.
#[derive(Clone, Copy, Debug, PartialEq, Eq, Structural)]
pub enum AxisType {
    Batch,
    Channel,
    Index,
    Time,
    Space,
}

/// The batch axis; it has no declared size.
#[derive(Debug)]
pub struct BatchAxis {
    pub id: AxisId,
    pub description: String,
}

/// A channel axis; its size is the number of its channel names.
#[derive(Debug)]
pub struct ChannelAxis {
    id: AxisId,
    description: String,
    channel_names: Vec<String>,
}

impl ChannelAxis {
    #[verifier::type_invariant]
    spec fn has_channels(self) -> bool {
        self.channel_names.len() > 0
    }

    pub closed spec fn id_view(&self) -> Seq<char> {
        self.id@
    }

    pub closed spec fn channel_count(&self) -> nat {
        self.channel_names@.len()
    }

    /// A channel axis with the given channels; there must be at least one.
    pub fn new(id: AxisId, description: String, channel_names: Vec<String>) -> (r: Option<
        ChannelAxis,
    >)
        ensures
            r is Some <==> channel_names.len() > 0,
            r matches Some(c) ==> c.id_view() == id@ && c.channel_count() == channel_names.len(),
    {
        if channel_names.len() == 0 {
            None
        } else {
            Some(ChannelAxis { id, description, channel_names })
        }
    }

    pub fn id(&self) -> (r: &AxisId)
        ensures
            r@ == self.id_view(),
    {
        &self.id
    }

    pub fn description(&self) -> &String {
        &self.description
    }

    pub fn channel_names(&self) -> (r: &Vec<String>)
        ensures
            r.len() == self.channel_count(),
    {
        &self.channel_names
    }

    /// The number of channels.
    pub fn size(&self) -> (r: FixedAxisSize)
        ensures
            r@ == self.channel_count(),
    {
        proof {
            use_type_invariant(self);
        }
        FixedAxisSize::from_positive(self.channel_names.len())
    }
}

/// An index axis.
#[derive(Debug)]
pub struct IndexAxis {
    pub id: AxisId,
    pub description: String,
    pub size: AnyAxisSize,
}

/// A time axis of an input tensor.
#[derive(Debug)]
pub struct TimeInputAxis {
    pub id: AxisId,
    pub description: String,
    pub size: AnyAxisSize,
}

/// A space axis of an input tensor.
#[derive(Debug)]
pub struct SpaceInputAxis {
    pub id: AxisId,
    pub description: String,
    pub size: AnyAxisSize,
}

/// An axis of an input tensor.
#[derive(Debug)]
pub enum InputAxis {
    Batch(BatchAxis),
    Channel(ChannelAxis),
    Index(IndexAxis),
    Time(TimeInputAxis),
    Space(SpaceInputAxis),
}

/// The size of an output space or time axis that has a halo.
#[derive(Debug)]
pub struct HaloedOutputSpacetimeSize {
    pub size: FixedOrRefAxisSize,
    pub halo: usize,
}

/// The size of an output space or time axis without a halo.
#[derive(Debug)]
pub struct StandardOutputSpacetimeSize {
    pub size: AnyAxisSize,
}

/// The size of an output space or time axis.
#[derive(Debug)]
pub enum OutputSpacetimeSize {
    Haloed(HaloedOutputSpacetimeSize),
    Standard(StandardOutputSpacetimeSize),
}

impl OutputSpacetimeSize {
    pub open spec fn size_model(&self) -> AxisSizeModel {
        match self {
            OutputSpacetimeSize::Standard(s) => s.size@,
            OutputSpacetimeSize::Haloed(h) => h.size@,
        }
    }

    /// The declared size, halo or not.
    pub fn size(&self) -> (r: AnyAxisSize)
        ensures
            r@ == self.size_model(),
    {
        match self {
            OutputSpacetimeSize::Standard(s) => s.size.clone(),
            OutputSpacetimeSize::Haloed(h) => AnyAxisSize::from(h.size.clone()),
        }
    }
}

impl From<AnyAxisSize> for OutputSpacetimeSize {
    fn from(size: AnyAxisSize) -> (r: OutputSpacetimeSize) {
        OutputSpacetimeSize::Standard(StandardOutputSpacetimeSize { size })
    }
}

impl vstd::std_specs::convert::FromSpecImpl<AnyAxisSize> for OutputSpacetimeSize {
    open spec fn obeys_from_spec() -> bool {
        true
    }

    open spec fn from_spec(size: AnyAxisSize) -> OutputSpacetimeSize {
        OutputSpacetimeSize::Standard(StandardOutputSpacetimeSize { size })
    }
}

/// A time axis of an output tensor.
#[derive(Debug)]
pub struct TimeOutputAxis {
    pub id: AxisId,
    pub description: String,
    pub size: OutputSpacetimeSize,
}

/// A space axis of an output tensor.
#[derive(Debug)]
pub struct SpaceOutputAxis {
    pub id: AxisId,
    pub description: String,
    pub size: OutputSpacetimeSize,
}

/// An axis of an output tensor.
#[derive(Debug)]
pub enum OutputAxis {
    Batch(BatchAxis),
    Channel(ChannelAxis),
    Index(IndexAxis),
    Time(TimeOutputAxis),
    Space(SpaceOutputAxis),
}

impl InputAxis {
    pub open spec fn axis_type_model(&self) -> AxisType {
        match self {
            InputAxis::Batch(_) => AxisType::Batch,
            InputAxis::Channel(_) => AxisType::Channel,
            InputAxis::Index(_) => AxisType::Index,
            InputAxis::Time(_) => AxisType::Time,
            InputAxis::Space(_) => AxisType::Space,
        }
    }

    pub open spec fn id_model(&self) -> Seq<char> {
        match self {
            InputAxis::Batch(a) => a.id@,
            InputAxis::Channel(a) => a.id_view(),
            InputAxis::Index(a) => a.id@,
            InputAxis::Time(a) => a.id@,
            InputAxis::Space(a) => a.id@,
        }
    }

    /// The declared size; a batch axis has none.
    pub open spec fn size_model(&self) -> Option<AxisSizeModel> {
        match self {
            InputAxis::Batch(_) => None,
            InputAxis::Channel(a) => Some(AxisSizeModel::Fixed { extent: a.channel_count() }),
            InputAxis::Index(a) => Some(a.size@),
            InputAxis::Time(a) => Some(a.size@),
            InputAxis::Space(a) => Some(a.size@),
        }
    }

    pub fn axis_type(&self) -> (r: AxisType)
        ensures
            r == self.axis_type_model(),
    {
        match self {
            InputAxis::Batch(_) => AxisType::Batch,
            InputAxis::Channel(_) => AxisType::Channel,
            InputAxis::Index(_) => AxisType::Index,
            InputAxis::Time(_) => AxisType::Time,
            InputAxis::Space(_) => AxisType::Space,
        }
    }

    pub fn id(&self) -> (r: AxisId)
        ensures
            r@ == self.id_model(),
    {
        match self {
            InputAxis::Batch(a) => a.id.clone(),
            InputAxis::Channel(a) => a.id().clone(),
            InputAxis::Index(a) => a.id.clone(),
            InputAxis::Time(a) => a.id.clone(),
            InputAxis::Space(a) => a.id.clone(),
        }
    }

    pub fn size(&self) -> (r: Option<AnyAxisSize>)
        ensures
            r is Some <==> self.size_model() is Some,
            r matches Some(s) ==> self.size_model() == Some(s@),
    {
        match self {
            InputAxis::Batch(_) => None,
            InputAxis::Channel(a) => Some(AnyAxisSize::Fixed(a.size())),
            InputAxis::Index(a) => Some(a.size.clone()),
            InputAxis::Time(a) => Some(a.size.clone()),
            InputAxis::Space(a) => Some(a.size.clone()),
        }
    }
}

impl OutputAxis {
    pub open spec fn axis_type_model(&self) -> AxisType {
        match self {
            OutputAxis::Batch(_) => AxisType::Batch,
            OutputAxis::Channel(_) => AxisType::Channel,
            OutputAxis::Index(_) => AxisType::Index,
            OutputAxis::Time(_) => AxisType::Time,
            OutputAxis::Space(_) => AxisType::Space,
        }
    }

    pub open spec fn id_model(&self) -> Seq<char> {
        match self {
            OutputAxis::Batch(a) => a.id@,
            OutputAxis::Channel(a) => a.id_view(),
            OutputAxis::Index(a) => a.id@,
            OutputAxis::Time(a) => a.id@,
            OutputAxis::Space(a) => a.id@,
        }
    }

    /// The declared size; a batch axis has none.
    pub open spec fn size_model(&self) -> Option<AxisSizeModel> {
        match self {
            OutputAxis::Batch(_) => None,
            OutputAxis::Channel(a) => Some(AxisSizeModel::Fixed { extent: a.channel_count() }),
            OutputAxis::Index(a) => Some(a.size@),
            OutputAxis::Time(a) => Some(a.size.size_model()),
            OutputAxis::Space(a) => Some(a.size.size_model()),
        }
    }

    pub fn axis_type(&self) -> (r: AxisType)
        ensures
            r == self.axis_type_model(),
    {
        match self {
            OutputAxis::Batch(_) => AxisType::Batch,
            OutputAxis::Channel(_) => AxisType::Channel,
            OutputAxis::Index(_) => AxisType::Index,
            OutputAxis::Time(_) => AxisType::Time,
            OutputAxis::Space(_) => AxisType::Space,
        }
    }

    pub fn id(&self) -> (r: AxisId)
        ensures
            r@ == self.id_model(),
    {
        match self {
            OutputAxis::Batch(a) => a.id.clone(),
            OutputAxis::Channel(a) => a.id().clone(),
            OutputAxis::Index(a) => a.id.clone(),
            OutputAxis::Time(a) => a.id.clone(),
            OutputAxis::Space(a) => a.id.clone(),
        }
    }

    pub fn size(&self) -> (r: Option<AnyAxisSize>)
        ensures
            r is Some <==> self.size_model() is Some,
            r matches Some(s) ==> self.size_model() == Some(s@),
    {
        match self {
            OutputAxis::Batch(_) => None,
            OutputAxis::Channel(a) => Some(AnyAxisSize::Fixed(a.size())),
            OutputAxis::Index(a) => Some(a.size.clone()),
            OutputAxis::Time(a) => Some(a.size.size()),
            OutputAxis::Space(a) => Some(a.size.size()),
        }
    }
}

/// Why a list of axes is not a valid axis group.
#[derive(Debug)]
pub enum AxisGroupError {
    /// A tensor needs at least one axis.
    Empty,
    /// Two axes of the tensor have this id.
    DuplicateAxisId(AxisId),
}

/// The axis ids, in order, with the first one that repeats an earlier one.
pub open spec fn first_repeated(ids: Seq<Seq<char>>, j: int) -> bool {
    &&& 0 <= j < ids.len()
    &&& exists|i: int| 0 <= i < j && ids[i] == ids[j]
    &&& forall|j2: int, i: int| 0 <= i < j2 < j ==> ids[i] != ids[j2]
}

pub open spec fn distinct(ids: Seq<Seq<char>>) -> bool {
    forall|i: int, j: int| 0 <= i < j < ids.len() ==> ids[i] != ids[j]
}

/// The position of the first id in `ids` that an earlier one repeats.
fn first_repeated_id(ids: &Vec<AxisId>) -> (r: Option<usize>)
    ensures
        r matches Some(j) ==> first_repeated(ids@.map_values(|a: AxisId| a@), j as int),
        r is None ==> distinct(ids@.map_values(|a: AxisId| a@)),
{
    let ghost v = ids@.map_values(|a: AxisId| a@);
    let mut j: usize = 0;
    while j < ids.len()
        invariant
            v == ids@.map_values(|a: AxisId| a@),
            j <= ids.len(),
            forall|i: int, j2: int| 0 <= i < j2 < j ==> v[i] != v[j2],
        decreases ids.len() - j,
    {
        let mut i: usize = 0;
        while i < j
            invariant
                v == ids@.map_values(|a: AxisId| a@),
                i <= j < ids.len(),
                forall|k: int| 0 <= k < i ==> v[k] != v[j as int],
                forall|a: int, b: int| 0 <= a < b < j ==> v[a] != v[b],
            decreases j - i,
        {
            if ids[i] == ids[j] {
                proof {
                    assert(v[i as int] == v[j as int]);
                }
                return Some(j);
            }
            i += 1;
        }
        j += 1;
    }
    None
}

/// The axes of an input tensor: at least one, with distinct ids.
#[derive(Debug)]
pub struct InputAxisGroup {
    axes: Vec<InputAxis>,
}

/// The axes of an output tensor: at least one, with distinct ids.
#[derive(Debug)]
pub struct OutputAxisGroup {
    axes: Vec<OutputAxis>,
}

pub open spec fn input_ids(axes: Seq<InputAxis>) -> Seq<Seq<char>> {
    axes.map_values(|a: InputAxis| a.id_model())
}

pub open spec fn output_ids(axes: Seq<OutputAxis>) -> Seq<Seq<char>> {
    axes.map_values(|a: OutputAxis| a.id_model())
}

impl View for InputAxisGroup {
    type V = Seq<InputAxis>;

    closed spec fn view(&self) -> Seq<InputAxis> {
        self.axes@
    }
}

impl View for OutputAxisGroup {
    type V = Seq<OutputAxis>;

    closed spec fn view(&self) -> Seq<OutputAxis> {
        self.axes@
    }
}

impl InputAxisGroup {
    #[verifier::type_invariant]
    spec fn valid(self) -> bool {
        self.axes.len() > 0 && distinct(input_ids(self.axes@))
    }

    /// The group of `axes`; fails where there are none, or on the first id
    /// that repeats an earlier one.
    pub fn try_new(axes: Vec<InputAxis>) -> (r: Result<InputAxisGroup, AxisGroupError>)
        ensures
            r matches Ok(g) ==> g@ == axes@ && axes.len() > 0 && distinct(input_ids(axes@)),
            r matches Err(AxisGroupError::Empty) <==> axes.len() == 0,
            r matches Err(AxisGroupError::DuplicateAxisId(id)) ==> exists|j: int|
                first_repeated(input_ids(axes@), j) && input_ids(axes@)[j] == id@,
    {
        if axes.len() == 0 {
            return Err(AxisGroupError::Empty);
        }
        let mut ids: Vec<AxisId> = Vec::new();
        let mut k: usize = 0;
        while k < axes.len()
            invariant
                k <= axes.len(),
                ids.len() == k,
                forall|m: int| 0 <= m < k ==> ids[m]@ == axes[m].id_model(),
            decreases axes.len() - k,
        {
            ids.push(axes[k].id());
            k += 1;
        }
        proof {
            assert(ids@.map_values(|a: AxisId| a@) =~= input_ids(axes@));
        }
        match first_repeated_id(&ids) {
            Some(j) => Err(AxisGroupError::DuplicateAxisId(ids[j].clone())),
            None => Ok(InputAxisGroup { axes }),
        }
    }

    pub fn len(&self) -> (r: usize)
        ensures
            r == self@.len(),
            r > 0,
    {
        proof {
            use_type_invariant(self);
        }
        self.axes.len()
    }

    pub fn axes(&self) -> (r: &Vec<InputAxis>)
        ensures
            r@ == self@,
    {
        &self.axes
    }
}

impl OutputAxisGroup {
    #[verifier::type_invariant]
    spec fn valid(self) -> bool {
        self.axes.len() > 0 && distinct(output_ids(self.axes@))
    }

    /// The group of `axes`; fails where there are none, or on the first id
    /// that repeats an earlier one.
    pub fn try_new(axes: Vec<OutputAxis>) -> (r: Result<OutputAxisGroup, AxisGroupError>)
        ensures
            r matches Ok(g) ==> g@ == axes@ && axes.len() > 0 && distinct(output_ids(axes@)),
            r matches Err(AxisGroupError::Empty) <==> axes.len() == 0,
            r matches Err(AxisGroupError::DuplicateAxisId(id)) ==> exists|j: int|
                first_repeated(output_ids(axes@), j) && output_ids(axes@)[j] == id@,
    {
        if axes.len() == 0 {
            return Err(AxisGroupError::Empty);
        }
        let mut ids: Vec<AxisId> = Vec::new();
        let mut k: usize = 0;
        while k < axes.len()
            invariant
                k <= axes.len(),
                ids.len() == k,
                forall|m: int| 0 <= m < k ==> ids[m]@ == axes[m].id_model(),
            decreases axes.len() - k,
        {
            ids.push(axes[k].id());
            k += 1;
        }
        proof {
            assert(ids@.map_values(|a: AxisId| a@) =~= output_ids(axes@));
        }
        match first_repeated_id(&ids) {
            Some(j) => Err(AxisGroupError::DuplicateAxisId(ids[j].clone())),
            None => Ok(OutputAxisGroup { axes }),
        }
    }

    pub fn len(&self) -> (r: usize)
        ensures
            r == self@.len(),
            r > 0,
    {
        proof {
            use_type_invariant(self);
        }
        self.axes.len()
    }

    pub fn axes(&self) -> (r: &Vec<OutputAxis>)
        ensures
            r@ == self@,
    {
        &self.axes
    }
}

} // verus!
