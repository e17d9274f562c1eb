//! The annotation model shared with the drawing code.
use vstd::prelude::*;

verus! {

/// How an arrow is drawn.
#[derive(Clone, Copy, Debug, PartialEq, Eq, Structural)]
pub enum ArrowStyle {
    /// Thin lines for shaft and head.
    Line,
    /// A filled triangular head.
    Solid,
}

} // verus!
