//! The editable state behind the forms of a metadata editor: raw field
//! values, filled from descriptor values and parsed back into them.

pub mod axis_size_widget;
pub mod input_axis_widget;
pub mod task;
pub mod search_and_pick_widget;

use vstd::prelude::*;

verus! {

/// Why a form's raw fields do not make a value.
#[derive(Clone, Copy, Debug, PartialEq, Eq, Structural)]
pub enum StagingError {
    EmptyTensorId,
    EmptyAxisId,
    ZeroExtent,
    NoChannels,
}

} // verus!
