//! The clipboard, where a confirmed screenshot goes by default.
use vstd::prelude::*;

verus! {

/// Writes screenshots to the system clipboard.
#[derive(Clone, Copy, Debug, Default)]
pub struct ClipboardSink;

impl ClipboardSink {
    pub fn new() -> (s: Self)
        ensures
            s == ClipboardSink,
    {
        ClipboardSink
    }
}

} // verus!
