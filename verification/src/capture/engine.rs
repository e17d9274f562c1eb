//! The decisions of the screen-capture engine: which monitor, which window,
//! which part of a monitor. The screen itself is read by the application.
use vstd::prelude::*;

use crate::capture::PixelRect;

verus! {

/// The capture engine built on the platform's screen capture.
#[derive(Clone, Copy, Debug, Default)]
pub struct XcapEngine;

impl XcapEngine {
    pub fn new() -> (e: Self)
        ensures
            e == XcapEngine,
    {
        XcapEngine
    }
}

/// Why a capture request cannot be served.
#[derive(Clone, Copy, Debug, PartialEq, Eq, Structural)]
pub enum CaptureError {
    /// No monitor was found.
    NoMonitor,
    /// The target window is minimized.
    WindowMinimized,
    /// No window has the requested id.
    WindowNotFound,
    /// The requested region has no area.
    EmptyRegion,
    /// The platform failed to report a property of a monitor or window.
    QueryFailed,
}

impl CaptureError {
    /// The message shown for the error.
    pub fn message(&self) -> (m: &'static str)
        ensures
            m@ == match *self {
                CaptureError::NoMonitor => "未找到显示器"@,
                CaptureError::WindowMinimized => "目标窗口已最小化，无法截取"@,
                CaptureError::WindowNotFound => "未找到目标窗口"@,
                CaptureError::EmptyRegion => "选区无效"@,
                CaptureError::QueryFailed => "无法读取显示器或窗口属性"@,
            },
    {
        match self {
            CaptureError::NoMonitor => "未找到显示器",
            CaptureError::WindowMinimized => "目标窗口已最小化，无法截取",
            CaptureError::WindowNotFound => "未找到目标窗口",
            CaptureError::EmptyRegion => "选区无效",
            CaptureError::QueryFailed => "无法读取显示器或窗口属性",
        }
    }
}

/// What the platform reported of a monitor; `None` where the query failed.
#[derive(Clone, Copy, Debug, PartialEq, Eq, Structural)]
pub struct MonitorProbe {
    pub id: Option<u32>,
    pub is_primary: Option<bool>,
}

/// Information about a window, for highlighting it under the cursor.
#[derive(Debug)]
pub struct WindowInfo {
    pub id: u32,
    pub title: String,
    pub rect: PixelRect,
}

/// What the platform reported of a window; `None` where the query failed.
#[derive(Debug)]
pub struct WindowProbe {
    pub id: Option<u32>,
    pub title: Option<String>,
    pub is_minimized: Option<bool>,
    pub x: Option<i32>,
    pub y: Option<i32>,
    pub width: Option<u32>,
    pub height: Option<u32>,
}

/// Index of the first monitor with the given id, unless a monitor before it failed to
/// report its id.
pub open spec fn find_monitor(ms: Seq<MonitorProbe>, target: u32, i: int) -> Result<Option<int>, CaptureError>
    decreases ms.len() - i,
{
    if i >= ms.len() {
        Ok(None)
    } else {
        match ms[i].id {
            None => Err(CaptureError::QueryFailed),
            Some(id) => if id == target {
                Ok(Some(i))
            } else {
                find_monitor(ms, target, i + 1)
            },
        }
    }
}

/// Index of the first monitor that reports itself primary; a failed query counts as not primary.
pub open spec fn first_primary(ms: Seq<MonitorProbe>, i: int) -> Option<int>
    decreases ms.len() - i,
{
    if i >= ms.len() {
        None
    } else if ms[i].is_primary == Some(true) {
        Some(i)
    } else {
        first_primary(ms, i + 1)
    }
}

/// The monitor a full-screen capture uses: the one with the requested id, or the
/// primary one when no id is given, falling back to the first monitor.
pub open spec fn chosen_monitor(ms: Seq<MonitorProbe>, target: Option<u32>) -> Result<int, CaptureError> {
    if ms.len() == 0 {
        Err(CaptureError::NoMonitor)
    } else {
        match target {
            Some(t) => match find_monitor(ms, t, 0) {
                Err(e) => Err(e),
                Ok(Some(i)) => Ok(i),
                Ok(None) => Ok(0),
            },
            None => match first_primary(ms, 0) {
                Some(i) => Ok(i),
                None => Ok(0),
            },
        }
    }
}

/// Picks the monitor for a full-screen capture.
pub fn choose_monitor(monitors: &Vec<MonitorProbe>, target: Option<u32>) -> (r: Result<usize, CaptureError>)
    ensures
        match chosen_monitor(monitors@, target) {
            Ok(i) => r == Ok::<usize, CaptureError>(i as usize),
            Err(e) => r == Err::<usize, CaptureError>(e),
        },
{
    if monitors.len() == 0 {
        return Err(CaptureError::NoMonitor);
    }
    match target {
        Some(t) => {
            let mut i: usize = 0;
            while i < monitors.len()
                invariant
                    0 <= i <= monitors@.len(),
                    monitors@.len() > 0,
                    target == Some(t),
                    find_monitor(monitors@, t, 0) == find_monitor(monitors@, t, i as int),
                decreases monitors@.len() - i,
            {
                match monitors[i].id {
                    None => return Err(CaptureError::QueryFailed),
                    Some(id) => {
                        if id == t {
                            return Ok(i);
                        }
                    },
                }
                i = i + 1;
            }
            Ok(0)
        },
        None => {
            let mut i: usize = 0;
            while i < monitors.len()
                invariant
                    0 <= i <= monitors@.len(),
                    monitors@.len() > 0,
                    target is None,
                    first_primary(monitors@, 0) == first_primary(monitors@, i as int),
                decreases monitors@.len() - i,
            {
                if monitors[i].is_primary == Some(true) {
                    return Ok(i);
                }
                i = i + 1;
            }
            Ok(0)
        },
    }
}

/// Where the search for a window stands after looking at the windows before `i`.
pub open spec fn find_window(ws: Seq<WindowProbe>, target: u32, i: int) -> Result<int, CaptureError>
    decreases ws.len() - i,
{
    if i >= ws.len() {
        Err(CaptureError::WindowNotFound)
    } else {
        match ws[i].id {
            None => Err(CaptureError::QueryFailed),
            Some(id) => if id == target {
                if ws[i].is_minimized == Some(true) {
                    Err(CaptureError::WindowMinimized)
                } else {
                    Ok(i)
                }
            } else {
                find_window(ws, target, i + 1)
            },
        }
    }
}

/// Finds the window to capture: the first with the requested id, unless it is
/// minimized (a failed minimized query counts as not minimized).
pub fn locate_window(windows: &Vec<WindowProbe>, target: u32) -> (r: Result<usize, CaptureError>)
    ensures
        match find_window(windows@, target, 0) {
            Ok(i) => r == Ok::<usize, CaptureError>(i as usize),
            Err(e) => r == Err::<usize, CaptureError>(e),
        },
{
    let mut i: usize = 0;
    while i < windows.len()
        invariant
            0 <= i <= windows@.len(),
            find_window(windows@, target, 0) == find_window(windows@, target, i as int),
        decreases windows@.len() - i,
    {
        match windows[i].id {
            None => return Err(CaptureError::QueryFailed),
            Some(id) => {
                if id == target {
                    if windows[i].is_minimized == Some(true) {
                        return Err(CaptureError::WindowMinimized);
                    }
                    return Ok(i);
                }
            },
        }
        i = i + 1;
    }
    Err(CaptureError::WindowNotFound)
}

/// The window entry of a probe that passes the filter: visible, with an area, and
/// all of its queries answered.
pub open spec fn window_entry(w: WindowProbe) -> Result<Option<(u32, Seq<char>, PixelRect)>, CaptureError> {
    if w.is_minimized == Some(true) {
        Ok(None)
    } else if w.width is None || w.height is None {
        Err(CaptureError::QueryFailed)
    } else if w.width->0 == 0 || w.height->0 == 0 {
        Ok(None)
    } else if w.id is None || w.x is None || w.y is None {
        Err(CaptureError::QueryFailed)
    } else {
        Ok(
            Some(
                (
                    w.id->0,
                    match w.title {
                        Some(t) => t@,
                        None => Seq::empty(),
                    },
                    PixelRect { x: w.x->0, y: w.y->0, width: w.width->0, height: w.height->0 },
                ),
            ),
        )
    }
}

/// The listing of the windows from `i` on: each visible window with an area, in order,
/// or the first failed query.
pub open spec fn listed_windows(ws: Seq<WindowProbe>, i: int) -> Result<Seq<(u32, Seq<char>, PixelRect)>, CaptureError>
    decreases ws.len() - i,
{
    if i >= ws.len() {
        Ok(Seq::empty())
    } else {
        match window_entry(ws[i]) {
            Err(e) => Err(e),
            Ok(entry) => match listed_windows(ws, i + 1) {
                Err(e) => Err(e),
                Ok(rest) => match entry {
                    None => Ok(rest),
                    Some(w) => Ok(seq![w] + rest),
                },
            },
        }
    }
}

/// `e` is what the platform reported of window `p`: its id, its title (empty when
/// the query failed), and its rectangle at `(x, y)` of size `width` by `height`.
pub open spec fn reported_by(e: (u32, Seq<char>, PixelRect), p: WindowProbe) -> bool {
    &&& p.id == Some(e.0)
    &&& e.1 == match p.title {
        Some(t) => t@,
        None => Seq::<char>::empty(),
    }
    &&& p.x == Some(e.2.x)
    &&& p.y == Some(e.2.y)
    &&& p.width == Some(e.2.width)
    &&& p.height == Some(e.2.height)
}

/// A window that can be highlighted: not minimized, with a width and a height above 0.
pub open spec fn shown(p: WindowProbe) -> bool {
    &&& p.is_minimized != Some(true)
    &&& p.width matches Some(w) && w > 0
    &&& p.height matches Some(h) && h > 0
}

/// `e` is what the platform reported of one of the shown windows `ws[i..]`.
pub open spec fn listed_from(
    e: (u32, Seq<char>, PixelRect),
    ws: Seq<WindowProbe>,
    i: int,
) -> bool {
    exists|j: int| i <= j < ws.len() && shown(ws[j]) && reported_by(e, #[trigger] ws[j])
}

/// When the listing of the windows from `i` on succeeds, it holds exactly the shown
/// windows, each as the platform reported it (the same id, title, position and size),
/// in their order: every entry is a shown window's report, every shown window's report
/// is an entry, and there are no more entries than windows.
pub proof fn law_listed_windows_are_as_reported(ws: Seq<WindowProbe>, i: int)
    requires
        0 <= i <= ws.len(),
        listed_windows(ws, i) is Ok,
    ensures
        listed_windows(ws, i)->Ok_0.len() <= ws.len() - i,
        forall|k: int|
            0 <= k < listed_windows(ws, i)->Ok_0.len() ==> #[trigger] listed_from(
                listed_windows(ws, i)->Ok_0[k],
                ws,
                i,
            ),
        forall|j: int|
            i <= j < ws.len() && shown(#[trigger] ws[j]) ==> exists|k: int|
                0 <= k < listed_windows(ws, i)->Ok_0.len() && reported_by(
                    #[trigger] listed_windows(ws, i)->Ok_0[k],
                    ws[j],
                ),
    decreases ws.len() - i,
{
    if i < ws.len() {
        law_listed_windows_are_as_reported(ws, i + 1);
        let rest = listed_windows(ws, i + 1)->Ok_0;
        let list = listed_windows(ws, i)->Ok_0;
        match window_entry(ws[i]) {
            Ok(None) => {
                assert(list == rest);
                assert(!shown(ws[i]));
                assert forall|k: int| 0 <= k < list.len() implies #[trigger] listed_from(
                    list[k],
                    ws,
                    i,
                ) by {
                    assert(listed_from(rest[k], ws, i + 1));
                    let j = choose|j: int|
                        i + 1 <= j < ws.len() && shown(ws[j]) && reported_by(
                            rest[k],
                            #[trigger] ws[j],
                        );
                    assert(i <= j < ws.len() && shown(ws[j]) && reported_by(list[k], ws[j]));
                }
            },
            Ok(Some(e)) => {
                assert(list == seq![e] + rest);
                assert(reported_by(e, ws[i]) && shown(ws[i]));
                assert forall|k: int| 0 <= k < list.len() implies #[trigger] listed_from(
                    list[k],
                    ws,
                    i,
                ) by {
                    if k == 0 {
                        assert(list[0] == e);
                        assert(i <= i < ws.len() && shown(ws[i]) && reported_by(list[k], ws[i]));
                    } else {
                        assert(list[k] == rest[k - 1]);
                        assert(listed_from(rest[k - 1], ws, i + 1));
                        let j = choose|j: int|
                            i + 1 <= j < ws.len() && shown(ws[j]) && reported_by(
                                rest[k - 1],
                                #[trigger] ws[j],
                            );
                        assert(i <= j < ws.len() && shown(ws[j]) && reported_by(list[k], ws[j]));
                    }
                }
                assert forall|j: int| i <= j < ws.len() && shown(#[trigger] ws[j]) implies exists|
                    k: int,
                | 0 <= k < list.len() && reported_by(#[trigger] list[k], ws[j]) by {
                    if j == i {
                        assert(list[0] == e);
                    } else {
                        let k = choose|k: int|
                            0 <= k < rest.len() && reported_by(#[trigger] rest[k], ws[j]);
                        assert(list[k + 1] == rest[k]);
                    }
                }
            },
            Err(_) => {},
        }
    }
}

/// A window as a triple of plain values.
pub open spec fn window_view(w: WindowInfo) -> (u32, Seq<char>, PixelRect) {
    (w.id, w.title@, w.rect)
}

/// Lists the windows that can be highlighted: minimized windows and windows without
/// area are left out; a failed query of a listed window fails the listing.
pub fn visible_windows(windows: Vec<WindowProbe>) -> (r: Result<Vec<WindowInfo>, CaptureError>)
    ensures
        match listed_windows(windows@, 0) {
            Ok(list) => r matches Ok(v) && v@.map_values(|w: WindowInfo| window_view(w)) == list,
            Err(e) => r == Err::<Vec<WindowInfo>, CaptureError>(e),
        },
{
    let mut out: Vec<WindowInfo> = Vec::new();
    let mut i: usize = 0;
    let ghost ws = windows@;
    while i < windows.len()
        invariant
            ws == windows@,
            0 <= i <= ws.len(),
            forall|j: int|
                0 <= j < i ==> (#[trigger] window_entry(ws[j])) is Ok,
            listed_windows(ws, 0) matches Ok(all) ==> (listed_windows(ws, i as int) matches Ok(
                rest,
            ) && all == out@.map_values(|w: WindowInfo| window_view(w)) + rest),
            listed_windows(ws, 0) is Err ==> listed_windows(ws, 0) == listed_windows(ws, i as int),
        decreases ws.len() - i,
    {
        let w = &windows[i];
        let minimized = match w.is_minimized {
            Some(b) => b,
            None => false,
        };
        if minimized {
            i = i + 1;
            continue;
        }
        let (width, height) = match (w.width, w.height) {
            (Some(width), Some(height)) => (width, height),
            _ => {
                proof {
                    assert(listed_windows(ws, i as int) is Err);
                }
                return Err(CaptureError::QueryFailed);
            },
        };
        if width == 0 || height == 0 {
            i = i + 1;
            continue;
        }
        let (id, x, y) = match (w.id, w.x, w.y) {
            (Some(id), Some(x), Some(y)) => (id, x, y),
            _ => {
                proof {
                    assert(listed_windows(ws, i as int) is Err);
                }
                return Err(CaptureError::QueryFailed);
            },
        };
        let title = match &w.title {
            Some(t) => t.clone(),
            None => String::new(),
        };
        out.push(WindowInfo { id, title, rect: PixelRect::new(x, y, width, height) });
        i = i + 1;
    }
    Ok(out)
}

/// The point a region capture uses to find its monitor: the middle of the region,
/// computed as `x + (width as i32) / 2` in 32-bit arithmetic (the cast wraps widths
/// above `i32::MAX`, and the division rounds toward zero).
pub open spec fn signed_half(v: u32) -> int {
    let s: int = if v <= i32::MAX {
        v as int
    } else {
        v - 0x1_0000_0000
    };
    if s >= 0 {
        s / 2
    } else {
        -((-s) / 2)
    }
}

/// The probe point of a region, or why there is none.
pub open spec fn region_probe_point(rect: PixelRect) -> Result<(int, int), CaptureError> {
    if rect.width == 0 || rect.height == 0 {
        Err(CaptureError::EmptyRegion)
    } else {
        Ok((rect.x + signed_half(rect.width), rect.y + signed_half(rect.height)))
    }
}

/// The probe point stays in `i32`.
pub open spec fn probe_fits(rect: PixelRect) -> bool {
    &&& i32::MIN <= rect.x + signed_half(rect.width) <= i32::MAX
    &&& i32::MIN <= rect.y + signed_half(rect.height) <= i32::MAX
}

fn half_as_i32(v: u32) -> (h: i32)
    ensures
        h == signed_half(v),
{
    if v <= 0x7fff_ffff {
        (v / 2) as i32
    } else {
        let s: i64 = v as i64 - 0x1_0000_0000i64;
        let neg: i64 = -s;
        (-(neg / 2)) as i32
    }
}

/// Rejects an empty region and gives the point whose monitor is captured.
pub fn region_probe(rect: PixelRect) -> (r: Result<(i32, i32), CaptureError>)
    requires
        rect.width == 0 || rect.height == 0 || probe_fits(rect),
    ensures
        match region_probe_point(rect) {
            Ok(p) => r matches Ok(q) && q.0 == p.0 && q.1 == p.1,
            Err(e) => r == Err::<(i32, i32), CaptureError>(e),
        },
{
    if rect.is_empty() {
        return Err(CaptureError::EmptyRegion);
    }
    let cx = rect.x + half_as_i32(rect.width);
    let cy = rect.y + half_as_i32(rect.height);
    Ok((cx, cy))
}

/// Offset of a region inside its monitor, negative parts cut to zero.
pub fn region_offset(rect: PixelRect, monitor_x: i32, monitor_y: i32) -> (r: (u32, u32))
    requires
        i32::MIN <= rect.x - monitor_x <= i32::MAX,
        i32::MIN <= rect.y - monitor_y <= i32::MAX,
    ensures
        r.0 == if rect.x - monitor_x >= 0 {
            rect.x - monitor_x
        } else {
            0
        },
        r.1 == if rect.y - monitor_y >= 0 {
            rect.y - monitor_y
        } else {
            0
        },
{
    let dx = rect.x - monitor_x;
    let dy = rect.y - monitor_y;
    let rx: u32 = if dx >= 0 { dx as u32 } else { 0 };
    let ry: u32 = if dy >= 0 { dy as u32 } else { 0 };
    (rx, ry)
}

} // verus!
