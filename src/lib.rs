//! Axis-size resolution and tensor-interface validation for model-zoo
//! packages, together with the descriptor types they work on.

pub mod ids;
pub mod axis_size;
pub mod resolver;
pub mod axes;
pub mod model_interface;
pub mod widgets;
pub mod legacy_axes;
pub mod lowercase;
pub mod rdf;
