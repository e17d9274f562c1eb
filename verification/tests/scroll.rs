use hijessy::capture::scroll::{stitch_plan, ScrollStitcher, StitchPlan};
use hijessy::raster::Raster;
use image::{Rgba, RgbaImage};

/// A window `[top, top + h)` of a tall image whose rows are coded by their row number.
fn window(top: u32, h: u32, w: u32) -> RgbaImage {
    let mut img = RgbaImage::new(w, h);
    for y in 0..h {
        let g = ((top + y) % 256) as u8;
        for x in 0..w {
            img.put_pixel(x, y, Rgba([g, g / 2, 255 - g, 255]));
        }
    }
    img
}

fn raster(img: RgbaImage) -> Raster {
    Raster { image: img }
}

fn solid(w: u32, h: u32, p: [u8; 4]) -> RgbaImage {
    let mut img = RgbaImage::new(w, h);
    for px in img.pixels_mut() {
        *px = Rgba(p);
    }
    img
}

#[test]
fn stitch_overlapping_windows() {
    let w = 12;
    let f1 = window(0, 100, w);
    let f2 = window(40, 100, w);
    let mut st = ScrollStitcher::new();
    st.push(raster(f1));
    st.push(raster(f2));
    let out = st.result().unwrap().image;
    assert_eq!(out.height(), 140, "stitched height should be 140, got {}", out.height());
    for &y in &[0u32, 50, 99, 120, 139] {
        let g = (y % 256) as u8;
        assert_eq!(out.get_pixel(0, y)[0], g, "row {y} does not match");
    }
}

#[test]
fn stitch_disjoint_falls_back_to_stack() {
    let w = 12;
    let f1 = window(0, 60, w);
    let f2 = solid(w, 60, [200, 10, 10, 255]);
    let mut st = ScrollStitcher::new();
    st.push(raster(f1));
    st.push(raster(f2));
    let out = st.result().unwrap().image;
    assert_eq!(out.height(), 120, "stacked height should be 120");
}

#[test]
fn empty_stitcher_has_no_image() {
    let st = ScrollStitcher::new();
    assert_eq!(st.frames(), 0);
    assert_eq!(st.height(), 0);
    assert!(st.result().is_none());
}

#[test]
fn first_frame_becomes_the_image() {
    let mut st = ScrollStitcher::new();
    st.push(raster(window(7, 30, 5)));
    assert_eq!(st.frames(), 1);
    assert_eq!(st.height(), 30);
    let out = st.result().unwrap().image;
    assert_eq!(out.dimensions(), (5, 30));
    assert_eq!(out.get_pixel(0, 0)[0], 7);
}

#[test]
fn frames_count_every_push() {
    let mut st = ScrollStitcher::new();
    st.push(raster(window(0, 100, 8)));
    st.push(raster(window(40, 100, 8)));
    st.push(raster(window(80, 100, 8)));
    assert_eq!(st.frames(), 3);
    assert_eq!(st.height(), 180);
    let out = st.result().unwrap().image;
    for y in 0..180u32 {
        assert_eq!(out.get_pixel(3, y)[0], (y % 256) as u8, "row {y}");
    }
}

#[test]
fn unscrolled_frame_adds_nothing() {
    let a = raster(window(0, 100, 12));
    let b = raster(window(0, 100, 12));
    assert_eq!(stitch_plan(&a, &b), StitchPlan::Keep);
    let mut st = ScrollStitcher::new();
    st.push(a);
    st.push(b);
    assert_eq!(st.height(), 100);
}

#[test]
fn plan_appends_below_the_match() {
    let a = raster(window(0, 100, 12));
    let b = raster(window(40, 100, 12));
    assert_eq!(stitch_plan(&a, &b), StitchPlan::Append(60));
}

#[test]
fn plan_stacks_when_widths_differ() {
    let a = raster(window(0, 100, 12));
    let b = raster(window(40, 100, 10));
    assert_eq!(stitch_plan(&a, &b), StitchPlan::Stack);
    let mut st = ScrollStitcher::new();
    st.push(a);
    st.push(b);
    let out = st.result().unwrap().image;
    assert_eq!(out.dimensions(), (12, 200));
    // The frame is narrower: the uncovered corner stays transparent black.
    assert_eq!(*out.get_pixel(11, 150), Rgba([0, 0, 0, 0]));
    assert_eq!(out.get_pixel(0, 150)[0], 90);
}

#[test]
fn plan_stacks_short_frames() {
    let a = raster(window(0, 100, 12));
    let b = raster(window(60, 40, 12));
    assert_eq!(stitch_plan(&a, &b), StitchPlan::Stack);
    let c = raster(window(0, 39, 12));
    let d = raster(window(10, 100, 12));
    assert_eq!(stitch_plan(&c, &d), StitchPlan::Stack);
}

#[test]
fn plan_stacks_zero_width_frames() {
    let a = raster(RgbaImage::new(0, 50));
    let b = raster(RgbaImage::new(0, 50));
    assert_eq!(stitch_plan(&a, &b), StitchPlan::Stack);
}

#[test]
fn plan_accepts_small_noise() {
    // Colors differ by 20 on one channel: mean error 20 / 3, accepted.
    let a = raster(solid(8, 50, [100, 100, 100, 255]));
    let b = raster(solid(8, 60, [120, 100, 100, 255]));
    assert_eq!(stitch_plan(&a, &b), StitchPlan::Append(40));
    // Mean error 27 on every channel is rejected.
    let c = raster(solid(8, 50, [100, 100, 100, 255]));
    let d = raster(solid(8, 60, [127, 127, 127, 255]));
    assert_eq!(stitch_plan(&c, &d), StitchPlan::Stack);
    // Mean error exactly 26 is accepted.
    let e = raster(solid(8, 50, [100, 100, 100, 255]));
    let f = raster(solid(8, 60, [126, 126, 126, 255]));
    assert_eq!(stitch_plan(&e, &f), StitchPlan::Append(40));
}
