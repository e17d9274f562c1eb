//! The icons of the capture toolbar.
use vstd::prelude::*;

verus! {

/// A toolbar icon.
#[derive(Clone, Copy, Debug, PartialEq, Eq, Structural)]
pub enum Icon {
    Cursor,
    Rect,
    Ellipse,
    Line,
    Arrow,
    Pencil,
    Text,
    Number,
    Mosaic,
    Undo,
    Redo,
    Save,
    Confirm,
    Cancel,
    FullScreen,
    Window,
    Ocr,
    Record,
    LongCapture,
}

} // verus!
