//! Capture layer: pixel rectangles and capture sources.
use vstd::prelude::*;
use std::time::Instant;
use crate::raster::Raster;

pub mod engine;
pub mod scroll;

pub use engine::XcapEngine;

verus! {

/// A rectangle in physical pixels (screen coordinates).
#[derive(Clone, Copy, Debug, PartialEq, Eq, Structural)]
pub struct PixelRect {
    pub x: i32,
    pub y: i32,
    pub width: u32,
    pub height: u32,
}

impl PixelRect {
    pub fn new(x: i32, y: i32, width: u32, height: u32) -> (r: Self)
        ensures
            r.x == x,
            r.y == y,
            r.width == width,
            r.height == height,
    {
        Self { x, y, width, height }
    }

    /// A rectangle is empty when it has no width or no height.
    pub fn is_empty(&self) -> (b: bool)
        ensures
            b == (self.width == 0 || self.height == 0),
    {
        self.width == 0 || self.height == 0
    }
}

/// Monitor identifier.
pub type MonitorId = u32;

/// Window identifier.
pub type WindowId = u32;

/// What a capture takes.
#[derive(Clone, Copy, Debug, PartialEq, Eq, Structural)]
pub enum CaptureSource {
    /// A whole monitor; `None` is the primary monitor.
    FullScreen(Option<MonitorId>),
    /// One window.
    Window(WindowId),
    /// A region of the screen, in physical pixels.
    Region(PixelRect),
}

#[verifier::external_type_specification]
#[verifier::external_body]
pub struct ExInstant(Instant);

/// `Instant::now`: the current reading of the monotonic clock.
#[verifier::external_body]
fn instant_now() -> Instant {
    Instant::now()
}

/// One captured frame: its pixels, the screen region they came from, and when.
pub struct Frame {
    pub image: Raster,
    pub region: PixelRect,
    pub captured_at: Instant,
}

impl Frame {
    /// A frame of `image` taken from `region`, stamped with the current time.
    pub fn new(image: Raster, region: PixelRect) -> (f: Self)
        ensures
            f.image == image,
            f.region == region,
    {
        Frame { image, region, captured_at: instant_now() }
    }
}

} // verus!
