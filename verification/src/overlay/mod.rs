//! The capture overlay: its tools, the outcome of a session, and the cut of the
//! annotated screenshot to the selection.
use vstd::prelude::*;

use crate::app::CaptureRequest;
use crate::capture::PixelRect;
use crate::hotkey::HotkeyAction;
use crate::raster::{buffer_fits, height_of, in_bounds, pixel_at, raster_size, width_of, Raster};

pub mod icons;

verus! {

/// Annotation tools; `Select` adjusts the selection.
#[derive(Clone, Copy, Debug, PartialEq, Eq, Structural, Default)]
pub enum Tool {
    #[default]
    Select,
    Rect,
    Ellipse,
    Arrow,
    Text,
    Number,
    Mosaic,
}

impl Tool {
    /// Whether picking the tool opens the style panel: every drawing tool does.
    pub fn shows_style_panel(&self) -> (b: bool)
        ensures
            b == (*self != Tool::Select),
    {
        match self {
            Tool::Select => false,
            _ => true,
        }
    }
}

/// The numbers that the number tool stamps, one after the other from 1. Undo does
/// not give a number back: the next stamp still takes the next number.
pub struct NumberSequence {
    next: u32,
}

impl NumberSequence {
    /// How many numbers have been handed out.
    pub closed spec fn issued(&self) -> nat {
        (self.next - 1) as nat
    }

    /// Whether another number can be handed out without leaving `u32`.
    pub closed spec fn has_next(&self) -> bool {
        self.next < u32::MAX
    }

    /// Numbers start at 1.
    #[verifier::type_invariant]
    spec fn starts_at_one(&self) -> bool {
        self.next >= 1
    }

    /// A sequence that has handed out nothing: its first number is 1.
    pub fn new() -> (s: Self)
        ensures
            s.issued() == 0,
            s.has_next(),
    {
        NumberSequence { next: 1 }
    }

    /// Whether `take` may be called again.
    pub fn can_take(&self) -> (b: bool)
        ensures
            b == self.has_next(),
    {
        self.next < u32::MAX
    }

    /// Hands out the next number: one more than the numbers handed out before.
    pub fn take(&mut self) -> (n: u32)
        requires
            old(self).has_next(),
        ensures
            n == old(self).issued() + 1,
            final(self).issued() == old(self).issued() + 1,
            final(self).has_next() <==> n + 1 < u32::MAX,
    {
        proof {
            use_type_invariant(&*self);
        }
        let n = self.next;
        self.next = self.next + 1;
        n
    }
}

/// A window rectangle moved from screen coordinates into the coordinates of an image
/// whose top-left corner lies at `(ox, oy)` on the screen.
pub open spec fn shifted(r: PixelRect, ox: i32, oy: i32) -> PixelRect {
    PixelRect { x: (r.x - ox) as i32, y: (r.y - oy) as i32, width: r.width, height: r.height }
}

/// Whether a rectangle, in image coordinates, overlaps an image of size `w` by `h`.
pub open spec fn overlaps_image(r: PixelRect, w: u32, h: u32) -> bool {
    &&& r.x + r.width > 0
    &&& r.y + r.height > 0
    &&& r.x < w
    &&& r.y < h
}

/// The shift of every window stays in `i32`.
pub open spec fn shifts_fit(ws: Seq<PixelRect>, ox: i32, oy: i32) -> bool {
    forall|i: int|
        0 <= i < ws.len() ==> i32::MIN <= #[trigger] ws[i].x - ox <= i32::MAX && i32::MIN
            <= ws[i].y - oy <= i32::MAX
}

/// The windows that overlap the image, in image coordinates and in their order.
pub open spec fn windows_in_view(ws: Seq<PixelRect>, ox: i32, oy: i32, w: u32, h: u32) -> Seq<
    PixelRect,
>
    decreases ws.len(),
{
    if ws.len() == 0 {
        Seq::empty()
    } else {
        let rest = windows_in_view(ws.drop_last(), ox, oy, w, h);
        let r = shifted(ws.last(), ox, oy);
        if overlaps_image(r, w, h) {
            rest.push(r)
        } else {
            rest
        }
    }
}

/// `k` is the screen rectangle `src` seen from an image whose top-left corner lies at
/// `(ox, oy)` on the screen: the same size, its corner `ox` to the left and `oy` up.
pub open spec fn seen_from(k: PixelRect, src: PixelRect, ox: i32, oy: i32) -> bool {
    &&& k.x + ox == src.x
    &&& k.y + oy == src.y
    &&& k.width == src.width
    &&& k.height == src.height
}

/// The screen rectangle `src`, seen from an image of size `w` by `h` at `(ox, oy)`,
/// covers part of the image.
pub open spec fn on_image(src: PixelRect, ox: i32, oy: i32, w: u32, h: u32) -> bool {
    &&& src.x - ox + src.width > 0
    &&& src.y - oy + src.height > 0
    &&& src.x - ox < w
    &&& src.y - oy < h
}

/// `k` is one of the windows `ws` that covers part of the image, seen from the image.
pub open spec fn kept_from(
    k: PixelRect,
    ws: Seq<PixelRect>,
    ox: i32,
    oy: i32,
    w: u32,
    h: u32,
) -> bool {
    exists|i: int|
        0 <= i < ws.len() && on_image(#[trigger] ws[i], ox, oy, w, h) && seen_from(
            k,
            ws[i],
            ox,
            oy,
        )
}

/// The windows kept for an image at `(ox, oy)` of size `w` by `h` are exactly those
/// that cover part of the image, each moved by `(-ox, -oy)` and otherwise unchanged:
/// every kept rectangle is such a window seen from the image, and every such window
/// is kept; no more rectangles are kept than there are windows.
pub proof fn law_windows_are_moved_onto_the_image(
    ws: Seq<PixelRect>,
    ox: i32,
    oy: i32,
    w: u32,
    h: u32,
)
    requires
        shifts_fit(ws, ox, oy),
    ensures
        windows_in_view(ws, ox, oy, w, h).len() <= ws.len(),
        forall|k: int|
            0 <= k < windows_in_view(ws, ox, oy, w, h).len() ==> #[trigger] kept_from(
                windows_in_view(ws, ox, oy, w, h)[k],
                ws,
                ox,
                oy,
                w,
                h,
            ),
        forall|i: int|
            0 <= i < ws.len() && on_image(#[trigger] ws[i], ox, oy, w, h) ==> exists|k: int|
                0 <= k < windows_in_view(ws, ox, oy, w, h).len() && seen_from(
                    #[trigger] windows_in_view(ws, ox, oy, w, h)[k],
                    ws[i],
                    ox,
                    oy,
                ),
    decreases ws.len(),
{
    if ws.len() > 0 {
        let pre = ws.drop_last();
        assert(shifts_fit(pre, ox, oy)) by {
            assert forall|i: int| 0 <= i < pre.len() implies i32::MIN <= #[trigger] pre[i].x - ox
                <= i32::MAX && i32::MIN <= pre[i].y - oy <= i32::MAX by {
                assert(pre[i] == ws[i]);
            }
        }
        law_windows_are_moved_onto_the_image(pre, ox, oy, w, h);
        let rest = windows_in_view(pre, ox, oy, w, h);
        let last = ws.last();
        let n = ws.len() - 1;
        assert(ws[n] == last);
        assert(i32::MIN <= ws[n].x - ox <= i32::MAX && i32::MIN <= ws[n].y - oy <= i32::MAX);
        let r = shifted(last, ox, oy);
        assert(seen_from(r, last, ox, oy));
        assert(overlaps_image(r, w, h) == on_image(last, ox, oy, w, h));
        assert forall|k: int|
            0 <= k < windows_in_view(ws, ox, oy, w, h).len() implies #[trigger] kept_from(
            windows_in_view(ws, ox, oy, w, h)[k],
            ws,
            ox,
            oy,
            w,
            h,
        ) by {
            if k < rest.len() {
                assert(windows_in_view(ws, ox, oy, w, h)[k] == rest[k]);
                assert(kept_from(rest[k], pre, ox, oy, w, h));
                let i = choose|i: int|
                    0 <= i < pre.len() && on_image(#[trigger] pre[i], ox, oy, w, h) && seen_from(
                        rest[k],
                        pre[i],
                        ox,
                        oy,
                    );
                assert(pre[i] == ws[i]);
                assert(0 <= i < ws.len() && on_image(ws[i], ox, oy, w, h) && seen_from(
                    windows_in_view(ws, ox, oy, w, h)[k],
                    ws[i],
                    ox,
                    oy,
                ));
            } else {
                assert(overlaps_image(r, w, h));
                assert(windows_in_view(ws, ox, oy, w, h) == rest.push(r));
                assert(windows_in_view(ws, ox, oy, w, h)[k] == r);
                assert(on_image(ws[n], ox, oy, w, h));
                assert(seen_from(windows_in_view(ws, ox, oy, w, h)[k], ws[n], ox, oy));
            }
        }
        assert forall|i: int|
            0 <= i < ws.len() && on_image(#[trigger] ws[i], ox, oy, w, h) implies exists|k: int|
                0 <= k < windows_in_view(ws, ox, oy, w, h).len() && seen_from(
                    #[trigger] windows_in_view(ws, ox, oy, w, h)[k],
                    ws[i],
                    ox,
                    oy,
                ) by {
            if i < n {
                assert(pre[i] == ws[i]);
                assert(on_image(pre[i], ox, oy, w, h));
                let k = choose|k: int|
                    0 <= k < rest.len() && seen_from(#[trigger] rest[k], pre[i], ox, oy);
                assert(windows_in_view(ws, ox, oy, w, h)[k] == rest[k]);
            } else {
                assert(windows_in_view(ws, ox, oy, w, h)[rest.len() as int] == r);
            }
        }
    } else {
        assert(windows_in_view(ws, ox, oy, w, h).len() == 0);
    }
}

/// Moves the screen rectangles of the windows into the coordinates of the frozen image
/// of a monitor at `(ox, oy)`, keeping those that overlap the image of size `w` by `h`.
pub fn windows_on_image(windows: &Vec<PixelRect>, ox: i32, oy: i32, w: u32, h: u32) -> (r: Vec<
    PixelRect,
>)
    requires
        shifts_fit(windows@, ox, oy),
    ensures
        r@ == windows_in_view(windows@, ox, oy, w, h),
{
    let mut out: Vec<PixelRect> = Vec::new();
    let mut i: usize = 0;
    while i < windows.len()
        invariant
            0 <= i <= windows.len(),
            shifts_fit(windows@, ox, oy),
            out@ == windows_in_view(windows@.take(i as int), ox, oy, w, h),
        decreases windows.len() - i,
    {
        let win = windows[i];
        let rx: i32 = win.x - ox;
        let ry: i32 = win.y - oy;
        let moved = PixelRect::new(rx, ry, win.width, win.height);
        let keep = (rx as i64) + (win.width as i64) > 0 && (ry as i64) + (win.height as i64) > 0
            && (rx as i64) < (w as i64) && (ry as i64) < (h as i64);
        proof {
            assert(windows@.take(i + 1).drop_last() == windows@.take(i as int));
            assert(windows@.take(i + 1).last() == win);
        }
        if keep {
            out.push(moved);
        }
        i = i + 1;
    }
    proof {
        assert(windows@.take(windows@.len() as int) == windows@);
    }
    out
}

/// How the selection of the overlay is made.
#[derive(Clone, Copy, Debug, PartialEq, Eq, Structural)]
pub enum SelectionMode {
    /// The window under the cursor is highlighted; a click picks it, a drag draws a region.
    Window,
    /// The whole screen is the selection.
    FullScreen,
    /// A region drawn by dragging.
    Custom,
}

/// How the overlay opens: its selection mode, whether the selection is fixed already,
/// and whether it is the whole image.
#[derive(Clone, Copy, Debug, PartialEq, Eq, Structural)]
pub struct SessionStart {
    pub mode: SelectionMode,
    pub locked: bool,
    pub whole_image: bool,
}

/// The start of a session for each request: the full-screen hotkey selects the
/// whole screen at once; the region hotkey opens a free drag; the window hotkey, the
/// tray and the start of the program open with the window under the cursor highlighted.
pub open spec fn start_of(req: CaptureRequest) -> SessionStart {
    match req {
        CaptureRequest::Hotkey(HotkeyAction::FullScreen) => SessionStart {
            mode: SelectionMode::FullScreen,
            locked: true,
            whole_image: true,
        },
        CaptureRequest::Hotkey(HotkeyAction::Region) => SessionStart {
            mode: SelectionMode::Custom,
            locked: false,
            whole_image: false,
        },
        _ => SessionStart { mode: SelectionMode::Window, locked: false, whole_image: false },
    }
}

/// How the overlay opens for the capture that was asked for.
pub fn session_start(req: CaptureRequest) -> (s: SessionStart)
    ensures
        s == start_of(req),
{
    match req {
        CaptureRequest::Hotkey(HotkeyAction::FullScreen) => SessionStart {
            mode: SelectionMode::FullScreen,
            locked: true,
            whole_image: true,
        },
        CaptureRequest::Hotkey(HotkeyAction::Region) => SessionStart {
            mode: SelectionMode::Custom,
            locked: false,
            whole_image: false,
        },
        _ => SessionStart { mode: SelectionMode::Window, locked: false, whole_image: false },
    }
}

/// A toolbar button that ends the session.
#[derive(Clone, Copy, Debug, PartialEq, Eq, Structural)]
pub enum ToolbarEnd {
    Save,
    Confirm,
    Cancel,
}

/// How a frame of the overlay ends the session, if it does.
#[derive(Clone, Copy, Debug, PartialEq, Eq, Structural)]
pub enum FrameEnd {
    /// The session goes on.
    Pending,
    /// The session is cancelled.
    Cancel,
    /// The image cut when the save button was pressed is saved.
    ToolbarSave,
    /// The image cut when the confirm button was pressed is confirmed.
    ToolbarConfirm,
    /// The image cut when Enter was pressed is confirmed.
    EnterConfirm,
}

/// How a frame ends the session. The toolbar is handled first, then Esc, then Enter,
/// and the last that applies wins: the save and confirm buttons apply only when a
/// non-empty image was cut (`toolbar_image`), cancel always does; Esc cancels; Enter
/// confirms once the selection is fixed and an image was cut (`enter_image`).
pub open spec fn frame_end_of(
    toolbar: Option<ToolbarEnd>,
    toolbar_image: bool,
    escape: bool,
    enter: bool,
    locked: bool,
    enter_image: bool,
) -> FrameEnd {
    if enter && locked && enter_image {
        FrameEnd::EnterConfirm
    } else if escape {
        FrameEnd::Cancel
    } else {
        match toolbar {
            Some(ToolbarEnd::Save) => if toolbar_image {
                FrameEnd::ToolbarSave
            } else {
                FrameEnd::Pending
            },
            Some(ToolbarEnd::Confirm) => if toolbar_image {
                FrameEnd::ToolbarConfirm
            } else {
                FrameEnd::Pending
            },
            Some(ToolbarEnd::Cancel) => FrameEnd::Cancel,
            None => FrameEnd::Pending,
        }
    }
}

/// Decides how a frame of the overlay ends the session.
pub fn frame_end(
    toolbar: Option<ToolbarEnd>,
    toolbar_image: bool,
    escape: bool,
    enter: bool,
    locked: bool,
    enter_image: bool,
) -> (e: FrameEnd)
    ensures
        e == frame_end_of(toolbar, toolbar_image, escape, enter, locked, enter_image),
{
    let mut end = match toolbar {
        Some(ToolbarEnd::Save) => if toolbar_image {
            FrameEnd::ToolbarSave
        } else {
            FrameEnd::Pending
        },
        Some(ToolbarEnd::Confirm) => if toolbar_image {
            FrameEnd::ToolbarConfirm
        } else {
            FrameEnd::Pending
        },
        Some(ToolbarEnd::Cancel) => FrameEnd::Cancel,
        None => FrameEnd::Pending,
    };
    if escape {
        end = FrameEnd::Cancel;
    }
    if enter && locked && enter_image {
        end = FrameEnd::EnterConfirm;
    }
    end
}

/// How the keys and the toolbar end a frame: Enter on a fixed selection with an image
/// confirms whatever else happened; otherwise Esc cancels; otherwise the save and
/// confirm buttons save or confirm when an image was cut, the cancel button cancels,
/// and nothing else ends the session.
pub proof fn law_enter_then_escape_then_toolbar(
    toolbar: Option<ToolbarEnd>,
    toolbar_image: bool,
    escape: bool,
    enter: bool,
    locked: bool,
    enter_image: bool,
)
    ensures
        enter && locked && enter_image ==> frame_end_of(
            toolbar,
            toolbar_image,
            escape,
            enter,
            locked,
            enter_image,
        ) == FrameEnd::EnterConfirm,
        !(enter && locked && enter_image) && escape ==> frame_end_of(
            toolbar,
            toolbar_image,
            escape,
            enter,
            locked,
            enter_image,
        ) == FrameEnd::Cancel,
        !(enter && locked && enter_image) && !escape ==> frame_end_of(
            toolbar,
            toolbar_image,
            escape,
            enter,
            locked,
            enter_image,
        ) == if toolbar == Some(ToolbarEnd::Save) && toolbar_image {
            FrameEnd::ToolbarSave
        } else if toolbar == Some(ToolbarEnd::Confirm) && toolbar_image {
            FrameEnd::ToolbarConfirm
        } else if toolbar == Some(ToolbarEnd::Cancel) {
            FrameEnd::Cancel
        } else {
            FrameEnd::Pending
        },
{
}

/// How a capture session ended, if it did.
pub enum SessionOutcome {
    Pending,
    Confirm(Raster),
    Save(Raster),
    Cancel,
}

/// What the application does once a session reports its outcome.
#[derive(Clone, Copy, Debug, PartialEq, Eq, Structural)]
pub struct OutcomeEffects {
    /// Write the screenshot to the clipboard.
    pub copy_to_clipboard: bool,
    /// Save the screenshot to a file.
    pub save_to_file: bool,
    /// Leave the overlay and go back to idle.
    pub end_session: bool,
}

/// A confirmed screenshot goes to the clipboard when the setting asks for it, a saved
/// one goes to a file; any outcome but `Pending` ends the session.
pub fn outcome_effects(outcome: &SessionOutcome, auto_clipboard: bool) -> (e: OutcomeEffects)
    ensures
        e.copy_to_clipboard == (outcome is Confirm && auto_clipboard),
        e.save_to_file == (outcome is Save),
        e.end_session == !(outcome is Pending),
{
    match outcome {
        SessionOutcome::Pending => OutcomeEffects {
            copy_to_clipboard: false,
            save_to_file: false,
            end_session: false,
        },
        SessionOutcome::Confirm(_) => OutcomeEffects {
            copy_to_clipboard: auto_clipboard,
            save_to_file: false,
            end_session: true,
        },
        SessionOutcome::Save(_) => OutcomeEffects {
            copy_to_clipboard: false,
            save_to_file: true,
            end_session: true,
        },
        SessionOutcome::Cancel => OutcomeEffects {
            copy_to_clipboard: false,
            save_to_file: false,
            end_session: true,
        },
    }
}

/// `a - b`, or 0 when `b` is larger.
pub open spec fn minus_or_zero(a: u32, b: u32) -> u32 {
    if a >= b {
        (a - b) as u32
    } else {
        0
    }
}

/// Size of the selection cut to the image: `(w, h)`.
pub open spec fn cut_size(img: Raster, x: u32, y: u32, w: u32, h: u32) -> (u32, u32) {
    (
        if w <= minus_or_zero(width_of(img), x) {
            w
        } else {
            minus_or_zero(width_of(img), x)
        },
        if h <= minus_or_zero(height_of(img), y) {
            h
        } else {
            minus_or_zero(height_of(img), y)
        },
    )
}

/// The part of the annotated screenshot under the selection whose top-left corner is
/// `(x, y)` and whose rounded size is `w` by `h`, cut to the image; `None` when nothing
/// of it lies inside the image. The image is one that could be allocated, as every
/// image that exists is.
pub fn crop_selection(img: &Raster, x: u32, y: u32, w: u32, h: u32) -> (r: Option<Raster>)
    requires
        buffer_fits(width_of(*img), height_of(*img)),
    ensures
        cut_size(*img, x, y, w, h).0 == 0 || cut_size(*img, x, y, w, h).1 == 0 ==> r is None,
        cut_size(*img, x, y, w, h).0 > 0 && cut_size(*img, x, y, w, h).1 > 0 ==> (r matches Some(
            out,
        ) && raster_size(out) == cut_size(*img, x, y, w, h) && forall|i: int, j: int|
            in_bounds(raster_size(out).0, raster_size(out).1, i, j) ==> #[trigger] pixel_at(
                out,
                i,
                j,
            ) == pixel_at(*img, x + i, y + j)),
{
    let iw = img.width();
    let ih = img.height();
    let room_w = if iw >= x { iw - x } else { 0 };
    let room_h = if ih >= y { ih - y } else { 0 };
    let cw = if w <= room_w { w } else { room_w };
    let ch = if h <= room_h { h } else { room_h };
    if cw == 0 || ch == 0 {
        return None;
    }
    proof {
        assert(4 * (cw as int) * (ch as int) <= 4 * (iw as int) * (ih as int)) by (nonlinear_arith)
            requires
                cw <= iw,
                ch <= ih,
        ;
    }
    Some(img.crop(x, y, cw, ch))
}

} // verus!
