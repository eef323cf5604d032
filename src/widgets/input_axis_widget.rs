//! The form state for entering an input axis.

use vstd::prelude::*;
use crate::ids::AxisId;
use crate::axis_size::{AnyAxisSize, AxisSizeModel};
use crate::axes::{
    AxisType, BatchAxis, ChannelAxis, IndexAxis, InputAxis, SpaceInputAxis, TimeInputAxis,
};
use crate::widgets::StagingError;
use crate::widgets::axis_size_widget::AnyAxisSizeWidget;

verus! {

/// The id and size an axis form describes: the id must be non-empty, then
/// the size must parse.
pub open spec fn axis_form_model(id: Seq<char>, size: Result<AxisSizeModel, StagingError>) -> Result<
    (Seq<char>, AxisSizeModel),
    StagingError,
> {
    if id.len() == 0 {
        Err(StagingError::EmptyAxisId)
    } else {
        match size {
            Ok(s) => Ok((id, s)),
            Err(e) => Err(e),
        }
    }
}

/// Parses an axis id and a size form.
fn parse_id_and_size(raw_id: &String, size_widget: &AnyAxisSizeWidget) -> (r: Result<
    (AxisId, AnyAxisSize),
    StagingError,
>)
    ensures
        r matches Ok((id, size)) ==> axis_form_model(raw_id@, size_widget.state_model()) == Ok::<
            (Seq<char>, AxisSizeModel),
            StagingError,
        >((id@, size@)),
        r matches Err(e) ==> axis_form_model(raw_id@, size_widget.state_model()) == Err::<
            (Seq<char>, AxisSizeModel),
            StagingError,
        >(e),
{
    let id = match AxisId::new(raw_id.as_str()) {
        Some(id) => id,
        None => return Err(StagingError::EmptyAxisId),
    };
    match size_widget.state() {
        Ok(size) => Ok((id, size)),
        Err(e) => Err(e),
    }
}

/// The raw physical scale of an axis, kept as entered.
#[derive(Debug)]
pub struct PhysicalScaleWidget {
    pub raw_scale: String,
}

/// The form for a space axis of an input tensor.
#[derive(Debug)]
pub struct InputSpaceAxisWidget {
    pub id_widget: String,
    pub description_widget: String,
    pub size_widget: AnyAxisSizeWidget,
    pub physical_scale_widget: PhysicalScaleWidget,
}

impl InputSpaceAxisWidget {
    /// Makes the size parameterized with minimum `min`, and the scale 1.
    pub fn prefil_parameterized_size(&mut self, min: usize)
        ensures
            final(self).size_widget.mode == crate::widgets::axis_size_widget::AxisSizeMode::Parameterized,
            final(self).size_widget.staging_parameterized.staging_min == min,
            final(self).size_widget.staging_fixed_size == min,
            final(self).physical_scale_widget.raw_scale@ == seq!['1'],
            final(self).id_widget == old(self).id_widget,
    {
        self.size_widget.prefil_parameterized(min);
        self.physical_scale_widget.raw_scale = "1".to_owned();
        proof {
            reveal_strlit("1");
        }
    }

    /// Fills the form with `value`.
    pub fn set_value(&mut self, value: SpaceInputAxis)
        ensures
            axis_form_model(final(self).id_widget@, final(self).size_widget.state_model()) == Ok::<
                (Seq<char>, AxisSizeModel),
                StagingError,
            >((value.id@, value.size@)),
            final(self).description_widget@ == value.description@,
    {
        self.id_widget = value.id.as_str().to_owned();
        self.description_widget = value.description;
        self.size_widget.set_value(value.size);
    }

    /// Parses the form.
    pub fn state(&self) -> (r: Result<SpaceInputAxis, StagingError>)
        ensures
            r matches Ok(a) ==> axis_form_model(self.id_widget@, self.size_widget.state_model())
                == Ok::<(Seq<char>, AxisSizeModel), StagingError>((a.id@, a.size@))
                && a.description@ == self.description_widget@,
            r matches Err(e) ==> axis_form_model(self.id_widget@, self.size_widget.state_model())
                == Err::<(Seq<char>, AxisSizeModel), StagingError>(e),
    {
        match parse_id_and_size(&self.id_widget, &self.size_widget) {
            Ok((id, size)) => Ok(
                SpaceInputAxis { id, description: self.description_widget.clone(), size },
            ),
            Err(e) => Err(e),
        }
    }
}

/// The form for a time axis of an input tensor.
#[derive(Debug)]
pub struct InputTimeAxisWidget {
    pub id_widget: String,
    pub description_widget: String,
    pub size_widget: AnyAxisSizeWidget,
    pub physical_scale_widget: PhysicalScaleWidget,
}

impl InputTimeAxisWidget {
    /// Fills the form with `value`.
    pub fn set_value(&mut self, value: TimeInputAxis)
        ensures
            axis_form_model(final(self).id_widget@, final(self).size_widget.state_model()) == Ok::<
                (Seq<char>, AxisSizeModel),
                StagingError,
            >((value.id@, value.size@)),
            final(self).description_widget@ == value.description@,
    {
        self.id_widget = value.id.as_str().to_owned();
        self.description_widget = value.description;
        self.size_widget.set_value(value.size);
    }

    /// Parses the form.
    pub fn state(&self) -> (r: Result<TimeInputAxis, StagingError>)
        ensures
            r matches Ok(a) ==> axis_form_model(self.id_widget@, self.size_widget.state_model())
                == Ok::<(Seq<char>, AxisSizeModel), StagingError>((a.id@, a.size@))
                && a.description@ == self.description_widget@,
            r matches Err(e) ==> axis_form_model(self.id_widget@, self.size_widget.state_model())
                == Err::<(Seq<char>, AxisSizeModel), StagingError>(e),
    {
        match parse_id_and_size(&self.id_widget, &self.size_widget) {
            Ok((id, size)) => Ok(TimeInputAxis { id, description: self.description_widget.clone(), size }),
            Err(e) => Err(e),
        }
    }
}

/// The form for an index axis.
#[derive(Debug)]
pub struct IndexAxisWidget {
    pub id_widget: String,
    pub description_widget: String,
    pub size_widget: AnyAxisSizeWidget,
}

impl IndexAxisWidget {
    /// Fills the form with `value`.
    pub fn set_value(&mut self, value: IndexAxis)
        ensures
            axis_form_model(final(self).id_widget@, final(self).size_widget.state_model()) == Ok::<
                (Seq<char>, AxisSizeModel),
                StagingError,
            >((value.id@, value.size@)),
            final(self).description_widget@ == value.description@,
    {
        self.id_widget = value.id.as_str().to_owned();
        self.description_widget = value.description;
        self.size_widget.set_value(value.size);
    }

    /// Parses the form.
    pub fn state(&self) -> (r: Result<IndexAxis, StagingError>)
        ensures
            r matches Ok(a) ==> axis_form_model(self.id_widget@, self.size_widget.state_model())
                == Ok::<(Seq<char>, AxisSizeModel), StagingError>((a.id@, a.size@))
                && a.description@ == self.description_widget@,
            r matches Err(e) ==> axis_form_model(self.id_widget@, self.size_widget.state_model())
                == Err::<(Seq<char>, AxisSizeModel), StagingError>(e),
    {
        match parse_id_and_size(&self.id_widget, &self.size_widget) {
            Ok((id, size)) => Ok(IndexAxis { id, description: self.description_widget.clone(), size }),
            Err(e) => Err(e),
        }
    }
}

/// The form for the batch axis.
#[derive(Debug)]
pub struct BatchAxisWidget {
    pub id_widget: String,
    pub description_widget: String,
}

impl BatchAxisWidget {
    /// Fills the form with `value`.
    pub fn set_value(&mut self, value: BatchAxis)
        ensures
            final(self).id_widget@ == value.id@,
            final(self).id_widget@.len() > 0,
            final(self).description_widget@ == value.description@,
    {
        self.id_widget = value.id.as_str().to_owned();
        self.description_widget = value.description;
    }

    /// Parses the form: the id must be non-empty.
    pub fn state(&self) -> (r: Result<BatchAxis, StagingError>)
        ensures
            r is Ok <==> self.id_widget@.len() > 0,
            r matches Ok(a) ==> a.id@ == self.id_widget@ && a.description@ == self.description_widget@,
            r matches Err(e) ==> e == StagingError::EmptyAxisId,
    {
        match AxisId::new(self.id_widget.as_str()) {
            Some(id) => Ok(BatchAxis { id, description: self.description_widget.clone() }),
            None => Err(StagingError::EmptyAxisId),
        }
    }
}

/// The form for a channel axis.
#[derive(Debug)]
pub struct ChannelAxisWidget {
    pub id_widget: String,
    pub description_widget: String,
    pub channel_names: Vec<String>,
}

impl ChannelAxisWidget {
    /// Fills the form with `value`.
    pub fn set_value(&mut self, value: ChannelAxis)
        ensures
            final(self).id_widget@ == value.id_view(),
            final(self).id_widget@.len() > 0,
            final(self).channel_names.len() == value.channel_count(),
    {
        self.id_widget = value.id().as_str().to_owned();
        self.description_widget = value.description().clone();
        self.channel_names = value.channel_names().clone();
    }

    /// Parses the form: the id must be non-empty, and there must be at least
    /// one channel.
    pub fn state(&self) -> (r: Result<ChannelAxis, StagingError>)
        ensures
            r is Ok <==> self.id_widget@.len() > 0 && self.channel_names.len() > 0,
            r matches Ok(a) ==> a.id_view() == self.id_widget@ && a.channel_count()
                == self.channel_names.len(),
            r matches Err(e) ==> (e == StagingError::EmptyAxisId <==> self.id_widget@.len() == 0),
    {
        let id = match AxisId::new(self.id_widget.as_str()) {
            Some(id) => id,
            None => return Err(StagingError::EmptyAxisId),
        };
        match ChannelAxis::new(id, self.description_widget.clone(), self.channel_names.clone()) {
            Some(axis) => Ok(axis),
            None => Err(StagingError::NoChannels),
        }
    }
}

/// The form for any input axis: the kind of axis, and a form for each kind.
#[derive(Debug)]
pub struct InputAxisWidget {
    pub axis_type: AxisType,
    pub batch_axis_widget: BatchAxisWidget,
    pub channel_axis_widget: ChannelAxisWidget,
    pub index_axis_widget: IndexAxisWidget,
    pub space_axis_widget: InputSpaceAxisWidget,
    pub time_axis_widget: InputTimeAxisWidget,
}

impl InputAxisWidget {
    /// The raw id in the form of the current kind.
    pub open spec fn raw_id(&self) -> Seq<char> {
        match self.axis_type {
            AxisType::Batch => self.batch_axis_widget.id_widget@,
            AxisType::Channel => self.channel_axis_widget.id_widget@,
            AxisType::Index => self.index_axis_widget.id_widget@,
            AxisType::Time => self.time_axis_widget.id_widget@,
            AxisType::Space => self.space_axis_widget.id_widget@,
        }
    }

    /// An empty form for a space axis, filled with `value` where there is one.
    pub fn new(value: Option<InputAxis>) -> (r: InputAxisWidget)
        ensures
            value matches Some(v) ==> r.axis_type == v.axis_type_model() && r.raw_id() == v.id_model(),
            value is None ==> r.axis_type == AxisType::Space && r.raw_id().len() == 0,
    {
        let mut out = InputAxisWidget {
            axis_type: AxisType::Space,
            batch_axis_widget: BatchAxisWidget { id_widget: String::new(), description_widget: String::new() },
            channel_axis_widget: ChannelAxisWidget {
                id_widget: String::new(),
                description_widget: String::new(),
                channel_names: Vec::new(),
            },
            index_axis_widget: IndexAxisWidget {
                id_widget: String::new(),
                description_widget: String::new(),
                size_widget: AnyAxisSizeWidget::default(),
            },
            space_axis_widget: InputSpaceAxisWidget {
                id_widget: String::new(),
                description_widget: String::new(),
                size_widget: AnyAxisSizeWidget::default(),
                physical_scale_widget: PhysicalScaleWidget { raw_scale: String::new() },
            },
            time_axis_widget: InputTimeAxisWidget {
                id_widget: String::new(),
                description_widget: String::new(),
                size_widget: AnyAxisSizeWidget::default(),
                physical_scale_widget: PhysicalScaleWidget { raw_scale: String::new() },
            },
        };
        if let Some(val) = value {
            out.set_value(val);
        }
        out
    }

    /// Switches to the kind of `value` and fills that kind's form with it.
    pub fn set_value(&mut self, value: InputAxis)
        ensures
            final(self).axis_type == value.axis_type_model(),
            final(self).raw_id() == value.id_model(),
    {
        match value {
            InputAxis::Batch(axis) => {
                self.axis_type = AxisType::Batch;
                self.batch_axis_widget.set_value(axis);
            },
            InputAxis::Channel(axis) => {
                self.axis_type = AxisType::Channel;
                self.channel_axis_widget.set_value(axis);
            },
            InputAxis::Index(axis) => {
                self.axis_type = AxisType::Index;
                self.index_axis_widget.set_value(axis);
            },
            InputAxis::Space(axis) => {
                self.axis_type = AxisType::Space;
                self.space_axis_widget.set_value(axis);
            },
            InputAxis::Time(axis) => {
                self.axis_type = AxisType::Time;
                self.time_axis_widget.set_value(axis);
            },
        }
    }

    /// Parses the form of the current kind.
    pub fn state(&self) -> (r: Result<InputAxis, StagingError>)
        ensures
            r matches Ok(a) ==> a.axis_type_model() == self.axis_type && a.id_model() == self.raw_id(),
            self.raw_id().len() == 0 ==> r == Err::<InputAxis, StagingError>(StagingError::EmptyAxisId),
            self.axis_type == AxisType::Space ==> (r is Ok <==> axis_form_model(
                self.space_axis_widget.id_widget@,
                self.space_axis_widget.size_widget.state_model(),
            ) is Ok),
    {
        match self.axis_type {
            AxisType::Space => match self.space_axis_widget.state() {
                Ok(a) => Ok(InputAxis::Space(a)),
                Err(e) => Err(e),
            },
            AxisType::Time => match self.time_axis_widget.state() {
                Ok(a) => Ok(InputAxis::Time(a)),
                Err(e) => Err(e),
            },
            AxisType::Batch => match self.batch_axis_widget.state() {
                Ok(a) => Ok(InputAxis::Batch(a)),
                Err(e) => Err(e),
            },
            AxisType::Channel => match self.channel_axis_widget.state() {
                Ok(a) => Ok(InputAxis::Channel(a)),
                Err(e) => Err(e),
            },
            AxisType::Index => match self.index_axis_widget.state() {
                Ok(a) => Ok(InputAxis::Index(a)),
                Err(e) => Err(e),
            },
        }
    }
}

} // verus!
