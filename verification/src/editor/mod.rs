//! Annotations: their model, their undo history and the mosaic that is burnt into the output.
pub mod history;
pub mod model;
pub mod mosaic;
