//! The form state for entering an axis size.

use vstd::prelude::*;
use crate::ids::{AxisId, TensorId};
use crate::axis_size::{
    AnyAxisSize, AxisSizeModel, AxisSizeReference, FixedAxisSize, ParameterizedAxisSize,
    QualifiedAxisId,
};
use crate::widgets::StagingError;

verus! {

/// The raw fields of a size reference: tensor id, axis id and offset.
#[derive(Debug)]
pub struct AxisSizeReferenceWidget {
    pub staging_tensor_id: String,
    pub staging_axis_id: String,
    pub staging_offset: usize,
}

impl AxisSizeReferenceWidget {
    /// The reference the fields describe: both ids must be non-empty.
    pub open spec fn state_model(&self) -> Result<AxisSizeModel, StagingError> {
        if self.staging_tensor_id@.len() == 0 {
            Err(StagingError::EmptyTensorId)
        } else if self.staging_axis_id@.len() == 0 {
            Err(StagingError::EmptyAxisId)
        } else {
            Ok(
                AxisSizeModel::Reference {
                    target: (self.staging_tensor_id@, self.staging_axis_id@),
                    offset: self.staging_offset as nat,
                },
            )
        }
    }

    /// Fills the fields with `value`.
    pub fn set_value(&mut self, value: AxisSizeReference)
        ensures
            final(self).state_model() == Ok::<AxisSizeModel, StagingError>(
                AnyAxisSize::Reference(value)@,
            ),
    {
        self.staging_tensor_id = value.qualified_axis_id.tensor_id.as_str().to_owned();
        self.staging_axis_id = value.qualified_axis_id.axis_id.as_str().to_owned();
        self.staging_offset = value.offset;
    }

    /// Parses the fields.
    pub fn state(&self) -> (r: Result<AxisSizeReference, StagingError>)
        ensures
            r matches Ok(v) ==> self.state_model() == Ok::<AxisSizeModel, StagingError>(
                AnyAxisSize::Reference(v)@,
            ),
            r matches Err(e) ==> self.state_model() == Err::<AxisSizeModel, StagingError>(e),
    {
        let tensor_id = match TensorId::new(self.staging_tensor_id.as_str()) {
            Some(t) => t,
            None => return Err(StagingError::EmptyTensorId),
        };
        let axis_id = match AxisId::new(self.staging_axis_id.as_str()) {
            Some(a) => a,
            None => return Err(StagingError::EmptyAxisId),
        };
        Ok(
            AxisSizeReference {
                qualified_axis_id: QualifiedAxisId { tensor_id, axis_id },
                offset: self.staging_offset,
            },
        )
    }
}

impl Default for AxisSizeReferenceWidget {
    fn default() -> (r: Self)
        ensures
            r.staging_tensor_id@.len() == 0,
            r.staging_axis_id@.len() == 0,
            r.staging_offset == 0,
    {
        AxisSizeReferenceWidget {
            staging_tensor_id: String::new(),
            staging_axis_id: String::new(),
            staging_offset: 0,
        }
    }
}

/// The raw fields of a parameterized size.
#[derive(Debug)]
pub struct ParameterizedAxisSizeWidget {
    pub staging_min: usize,
    pub staging_step: usize,
}

impl ParameterizedAxisSizeWidget {
    /// The size the fields describe: both must be positive.
    pub open spec fn state_model(&self) -> Result<AxisSizeModel, StagingError> {
        if self.staging_min == 0 || self.staging_step == 0 {
            Err(StagingError::ZeroExtent)
        } else {
            Ok(
                AxisSizeModel::Parameterized {
                    min: self.staging_min as nat,
                    step: self.staging_step as nat,
                },
            )
        }
    }

    /// Fills the fields with `value`.
    pub fn set_value(&mut self, value: ParameterizedAxisSize)
        ensures
            final(self).state_model() == Ok::<AxisSizeModel, StagingError>(
                AnyAxisSize::Parameterized(value)@,
            ),
    {
        self.staging_min = value.min.get();
        self.staging_step = value.step.get();
    }

    /// Parses the fields.
    pub fn state(&self) -> (r: Result<ParameterizedAxisSize, StagingError>)
        ensures
            r matches Ok(v) ==> self.state_model() == Ok::<AxisSizeModel, StagingError>(
                AnyAxisSize::Parameterized(v)@,
            ),
            r matches Err(e) ==> self.state_model() == Err::<AxisSizeModel, StagingError>(e),
    {
        let min = match FixedAxisSize::new(self.staging_min) {
            Some(m) => m,
            None => return Err(StagingError::ZeroExtent),
        };
        let step = match FixedAxisSize::new(self.staging_step) {
            Some(s) => s,
            None => return Err(StagingError::ZeroExtent),
        };
        Ok(ParameterizedAxisSize { min, step })
    }
}

impl Default for ParameterizedAxisSizeWidget {
    fn default() -> (r: Self)
        ensures
            r.staging_min == 0,
            r.staging_step == 0,
    {
        ParameterizedAxisSizeWidget { staging_min: 0, staging_step: 0 }
    }
}

/// Which kind of size the form is set to.
#[derive(Clone, Copy, Debug, PartialEq, Eq, Structural)]
pub enum AxisSizeMode {
    Fixed,
    Reference,
    Parameterized,
}

impl Default for AxisSizeMode {
    fn default() -> (r: Self)
        ensures
            r == AxisSizeMode::Fixed,
    {
        AxisSizeMode::Fixed
    }
}

/// The form for any kind of axis size: a mode, and the fields of each kind.
#[derive(Debug)]
pub struct AnyAxisSizeWidget {
    pub mode: AxisSizeMode,
    pub staging_fixed_size: usize,
    pub staging_size_ref: AxisSizeReferenceWidget,
    pub staging_parameterized: ParameterizedAxisSizeWidget,
}

impl AnyAxisSizeWidget {
    /// The size the fields of the current mode describe.
    pub open spec fn state_model(&self) -> Result<AxisSizeModel, StagingError> {
        match self.mode {
            AxisSizeMode::Fixed => if self.staging_fixed_size == 0 {
                Err(StagingError::ZeroExtent)
            } else {
                Ok(AxisSizeModel::Fixed { extent: self.staging_fixed_size as nat })
            },
            AxisSizeMode::Parameterized => self.staging_parameterized.state_model(),
            AxisSizeMode::Reference => self.staging_size_ref.state_model(),
        }
    }

    /// Switches to a parameterized size and puts `min` in its minimum and in
    /// the fixed extent.
    pub fn prefil_parameterized(&mut self, min: usize)
        ensures
            final(self).mode == AxisSizeMode::Parameterized,
            final(self).staging_parameterized.staging_min == min,
            final(self).staging_parameterized.staging_step == old(
                self,
            ).staging_parameterized.staging_step,
            final(self).staging_fixed_size == min,
            final(self).staging_size_ref == old(self).staging_size_ref,
    {
        self.mode = AxisSizeMode::Parameterized;
        self.staging_parameterized.staging_min = min;
        self.staging_fixed_size = min;
    }

    /// Switches to the kind of `value` and fills its fields with it.
    pub fn set_value(&mut self, value: AnyAxisSize)
        ensures
            final(self).state_model() == Ok::<AxisSizeModel, StagingError>(value@),
    {
        match value {
            AnyAxisSize::Fixed(fixed) => {
                self.mode = AxisSizeMode::Fixed;
                self.staging_fixed_size = fixed.get();
            },
            AnyAxisSize::Reference(reference) => {
                self.mode = AxisSizeMode::Reference;
                self.staging_size_ref.set_value(reference);
            },
            AnyAxisSize::Parameterized(parameterized) => {
                self.mode = AxisSizeMode::Parameterized;
                self.staging_parameterized.set_value(parameterized);
            },
        }
    }

    /// Parses the fields of the current mode.
    pub fn state(&self) -> (r: Result<AnyAxisSize, StagingError>)
        ensures
            r matches Ok(v) ==> self.state_model() == Ok::<AxisSizeModel, StagingError>(v@),
            r matches Err(e) ==> self.state_model() == Err::<AxisSizeModel, StagingError>(e),
    {
        match self.mode {
            AxisSizeMode::Fixed => match FixedAxisSize::new(self.staging_fixed_size) {
                Some(n) => Ok(AnyAxisSize::Fixed(n)),
                None => Err(StagingError::ZeroExtent),
            },
            AxisSizeMode::Parameterized => match self.staging_parameterized.state() {
                Ok(p) => Ok(AnyAxisSize::Parameterized(p)),
                Err(e) => Err(e),
            },
            AxisSizeMode::Reference => match self.staging_size_ref.state() {
                Ok(r) => Ok(AnyAxisSize::Reference(r)),
                Err(e) => Err(e),
            },
        }
    }
}

impl Default for AnyAxisSizeWidget {
    fn default() -> (r: Self)
        ensures
            r.mode == AxisSizeMode::Fixed,
            r.staging_fixed_size == 0,
    {
        AnyAxisSizeWidget {
            mode: AxisSizeMode::Fixed,
            staging_fixed_size: 0,
            staging_size_ref: AxisSizeReferenceWidget::default(),
            staging_parameterized: ParameterizedAxisSizeWidget::default(),
        }
    }
}

} // verus!
