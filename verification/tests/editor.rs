use hijessy::editor::history::AnnotationHistory;
use hijessy::editor::model::ArrowStyle;
use hijessy::editor::mosaic::mosaic;
use hijessy::raster::Raster;
use image::{Rgba, RgbaImage};

#[test]
fn undo_removes_the_last_annotation_and_redo_restores_it() {
    let mut h: AnnotationHistory<&str> = AnnotationHistory::new();
    h.commit("rect");
    h.commit("arrow");
    assert_eq!(h.annotations(), &vec!["rect", "arrow"]);
    h.undo();
    assert_eq!(h.annotations(), &vec!["rect"]);
    h.redo();
    assert_eq!(h.annotations(), &vec!["rect", "arrow"]);
}

#[test]
fn undo_and_redo_on_empty_stacks_do_nothing() {
    let mut h: AnnotationHistory<u32> = AnnotationHistory::new();
    h.undo();
    assert!(h.annotations().is_empty());
    h.commit(1);
    h.redo();
    assert_eq!(h.annotations(), &vec![1]);
}

#[test]
fn commit_after_undo_drops_the_redo_stack() {
    let mut h: AnnotationHistory<u32> = AnnotationHistory::new();
    h.commit(1);
    h.commit(2);
    h.undo();
    h.commit(3);
    h.redo();
    assert_eq!(h.annotations(), &vec![1, 3]);
    h.undo();
    h.undo();
    assert!(h.annotations().is_empty());
    h.redo();
    h.redo();
    assert_eq!(h.annotations(), &vec![1, 3]);
}

#[test]
fn arrow_styles_differ() {
    assert_ne!(ArrowStyle::Line, ArrowStyle::Solid);
}

fn gradient(w: u32, h: u32) -> RgbaImage {
    let mut img = RgbaImage::new(w, h);
    for y in 0..h {
        for x in 0..w {
            img.put_pixel(x, y, Rgba([x as u8, y as u8, (x + y) as u8, 10]));
        }
    }
    img
}

#[test]
fn mosaic_fills_blocks_with_their_mean() {
    let mut r = Raster { image: gradient(30, 20) };
    mosaic(&mut r, 0, 0, 30, 20);
    let img = r.image;
    // First block 0..12 x 0..12: mean of x is 5 (5.5 rounded down), of y 5, of x + y 11.
    assert_eq!(*img.get_pixel(0, 0), Rgba([5, 5, 11, 255]));
    assert_eq!(*img.get_pixel(11, 11), Rgba([5, 5, 11, 255]));
    // Block 24..30 x 0..12: x mean 26 (26.5), y mean 5, sum mean 32.
    assert_eq!(*img.get_pixel(29, 3), Rgba([26, 5, 32, 255]));
    // Block 12..24 x 12..20: x mean 17, y mean 15 (15.5), sum mean 33.
    assert_eq!(*img.get_pixel(12, 19), Rgba([17, 15, 33, 255]));
}

#[test]
fn mosaic_leaves_the_outside_alone() {
    let mut r = Raster { image: gradient(30, 20) };
    mosaic(&mut r, 5, 5, 10, 8);
    let img = r.image;
    assert_eq!(*img.get_pixel(4, 5), Rgba([4, 5, 9, 10]));
    assert_eq!(*img.get_pixel(10, 7), Rgba([10, 7, 17, 10]));
    // Block 5..10 x 5..8: x mean 7, y mean 6, sum mean 13.
    assert_eq!(*img.get_pixel(5, 5), Rgba([7, 6, 13, 255]));
    assert_eq!(*img.get_pixel(9, 7), Rgba([7, 6, 13, 255]));
}

#[test]
fn mosaic_of_an_empty_or_outside_region_changes_nothing() {
    let mut r = Raster { image: gradient(8, 8) };
    mosaic(&mut r, 5, 5, 5, 8);
    mosaic(&mut r, 20, 20, 40, 40);
    assert_eq!(r.image, gradient(8, 8));
}

#[test]
fn mosaic_region_is_cut_to_the_image() {
    let mut r = Raster { image: gradient(4, 4) };
    mosaic(&mut r, 2, 0, 1000, 1000);
    let img = r.image;
    // Block 2..4 x 0..4: x mean 2 (2.5), y mean 1 (1.5), sum mean 4.
    assert_eq!(*img.get_pixel(3, 3), Rgba([2, 1, 4, 255]));
    assert_eq!(*img.get_pixel(1, 3), Rgba([1, 3, 4, 10]));
}

#[test]
fn mosaic_twice_is_mosaic_once() {
    let mut once = Raster { image: gradient(30, 20) };
    mosaic(&mut once, 3, 2, 27, 19);
    let mut twice = Raster { image: once.image.clone() };
    mosaic(&mut twice, 3, 2, 27, 19);
    assert_eq!(once.image, twice.image);
}
