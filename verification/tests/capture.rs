use hijessy::capture::engine::{
    choose_monitor, locate_window, region_offset, region_probe, visible_windows, CaptureError,
    MonitorProbe, WindowProbe, XcapEngine,
};
use hijessy::capture::{CaptureSource, Frame, PixelRect};
use hijessy::raster::Raster;

#[test]
fn pixel_rect_new_and_is_empty() {
    let r = PixelRect::new(-5, 7, 10, 0);
    assert_eq!((r.x, r.y, r.width, r.height), (-5, 7, 10, 0));
    assert!(r.is_empty());
    assert!(PixelRect::new(0, 0, 0, 3).is_empty());
    assert!(!PixelRect::new(0, 0, 1, 1).is_empty());
}

#[test]
fn capture_source_holds_its_target() {
    let s = CaptureSource::Region(PixelRect::new(1, 2, 3, 4));
    assert_eq!(s, CaptureSource::Region(PixelRect::new(1, 2, 3, 4)));
    assert_ne!(CaptureSource::FullScreen(None), CaptureSource::FullScreen(Some(0)));
    let _ = CaptureSource::Window(9);
    let _ = XcapEngine::new();
}

fn m(id: Option<u32>, primary: Option<bool>) -> MonitorProbe {
    MonitorProbe { id, is_primary: primary }
}

#[test]
fn monitor_choice() {
    let ms = vec![m(Some(3), Some(false)), m(Some(7), Some(true)), m(Some(9), None)];
    assert_eq!(choose_monitor(&ms, Some(9)), Ok(2));
    assert_eq!(choose_monitor(&ms, Some(42)), Ok(0));
    assert_eq!(choose_monitor(&ms, None), Ok(1));
    assert_eq!(choose_monitor(&vec![], None), Err(CaptureError::NoMonitor));
    let broken = vec![m(Some(3), None), m(None, None), m(Some(5), None)];
    assert_eq!(choose_monitor(&broken, Some(3)), Ok(0));
    assert_eq!(choose_monitor(&broken, Some(5)), Err(CaptureError::QueryFailed));
    assert_eq!(choose_monitor(&broken, None), Ok(0));
}

fn w(id: u32, min: bool, x: i32, width: u32, height: u32) -> WindowProbe {
    WindowProbe {
        id: Some(id),
        title: Some(format!("w{id}")),
        is_minimized: Some(min),
        x: Some(x),
        y: Some(0),
        width: Some(width),
        height: Some(height),
    }
}

#[test]
fn window_lookup() {
    let ws = vec![w(1, false, 0, 10, 10), w(2, true, 0, 10, 10)];
    assert_eq!(locate_window(&ws, 1), Ok(0));
    assert_eq!(locate_window(&ws, 2), Err(CaptureError::WindowMinimized));
    assert_eq!(locate_window(&ws, 3), Err(CaptureError::WindowNotFound));
    let mut broken = vec![w(1, false, 0, 10, 10)];
    broken[0].id = None;
    assert_eq!(locate_window(&broken, 1), Err(CaptureError::QueryFailed));
}

#[test]
fn window_listing_skips_hidden_and_empty_windows() {
    let mut untitled = w(4, false, 3, 5, 6);
    untitled.title = None;
    let ws = vec![w(1, false, 0, 10, 10), w(2, true, 0, 10, 10), w(3, false, 0, 0, 10), untitled];
    let listed = visible_windows(ws).unwrap();
    assert_eq!(listed.len(), 2);
    assert_eq!(listed[0].id, 1);
    assert_eq!(listed[0].title, "w1");
    assert_eq!(listed[1].id, 4);
    assert_eq!(listed[1].title, "");
    assert_eq!(listed[1].rect, PixelRect::new(3, 0, 5, 6));
}

#[test]
fn window_listing_fails_on_a_failed_query() {
    let mut bad = w(5, false, 0, 10, 10);
    bad.x = None;
    assert_eq!(visible_windows(vec![w(1, false, 0, 1, 1), bad]).unwrap_err(), CaptureError::QueryFailed);
    let mut hidden_bad = w(6, true, 0, 10, 10);
    hidden_bad.x = None;
    assert_eq!(visible_windows(vec![hidden_bad]).unwrap().len(), 0);
}

#[test]
fn region_probe_point_and_offset() {
    assert_eq!(region_probe(PixelRect::new(10, 20, 0, 5)), Err(CaptureError::EmptyRegion));
    assert_eq!(region_probe(PixelRect::new(10, 20, 101, 50)), Ok((60, 45)));
    assert_eq!(region_probe(PixelRect::new(-10, -20, 7, 3)), Ok((-7, -19)));
    // Widths above i32::MAX wrap to negative values in the 32-bit cast.
    assert_eq!(region_probe(PixelRect::new(0, 0, u32::MAX, 1)), Ok((0, 0)));
    assert_eq!(region_probe(PixelRect::new(0, 0, u32::MAX - 2, 1)), Ok((-1, 0)));
    assert_eq!(region_offset(PixelRect::new(100, 50, 10, 10), 40, 80), (60, 0));
    assert_eq!(region_offset(PixelRect::new(-100, 50, 10, 10), -1920, 0), (1820, 50));
}

#[test]
fn capture_error_messages() {
    assert_eq!(CaptureError::NoMonitor.message(), "未找到显示器");
    assert_eq!(CaptureError::WindowNotFound.message(), "未找到目标窗口");
    assert_eq!(CaptureError::EmptyRegion.message(), "选区无效");
}

#[test]
fn frame_keeps_its_image_and_region() {
    let mut img = Raster::blank(3, 2);
    img.put_pixel(2, 1, (9, 8, 7, 255));
    let f = Frame::new(img, PixelRect::new(10, -4, 3, 2));
    assert_eq!((f.image.width(), f.image.height()), (3, 2));
    assert_eq!(f.image.get_pixel(2, 1), (9, 8, 7, 255));
    assert_eq!(f.region, PixelRect::new(10, -4, 3, 2));
    assert!(f.captured_at.elapsed().as_secs() < 3600);
}
