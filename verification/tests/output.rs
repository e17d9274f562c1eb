use std::path::PathBuf;

use hijessy::output::file::{
    encoding_for_extension, filename_at, filename_since_epoch, output_dir_choice, output_extension,
    pixels_to_encode, timestamped_filename, FileSink, ImageEncoding, OutputDir,
};
use hijessy::output::text::{decimal_string, eq_ignore_ascii_case};
use hijessy::output::ClipboardSink;
use hijessy::raster::Raster;

#[test]
fn extension_follows_the_format() {
    assert_eq!(output_extension("png"), "png");
    assert_eq!(output_extension("JPG"), "jpg");
    assert_eq!(output_extension("Jpeg"), "jpg");
    assert_eq!(output_extension("gif"), "png");
    assert_eq!(output_extension(""), "png");
}

#[test]
fn encoding_follows_the_extension() {
    assert_eq!(encoding_for_extension(Some("JPG")), ImageEncoding::Jpeg);
    assert_eq!(encoding_for_extension(Some("jpeg")), ImageEncoding::Jpeg);
    assert_eq!(encoding_for_extension(Some("png")), ImageEncoding::Png);
    assert_eq!(encoding_for_extension(Some("jp")), ImageEncoding::Png);
    assert_eq!(encoding_for_extension(None), ImageEncoding::Png);
}

#[test]
fn ascii_case_folding_leaves_other_characters() {
    assert!(eq_ignore_ascii_case("HeLLo", "hello"));
    assert!(!eq_ignore_ascii_case("hello", "hell"));
    assert!(eq_ignore_ascii_case("Ä", "Ä"));
    assert!(!eq_ignore_ascii_case("Ä", "ä"));
    assert!(!eq_ignore_ascii_case("[", "{"));
}

#[test]
fn file_names() {
    assert_eq!(filename_at(1700000000, "png"), "screenshot-1700000000.png");
    assert_eq!(filename_at(0, "jpg"), "screenshot-0.jpg");
    assert_eq!(decimal_string(u64::MAX), "18446744073709551615");
    assert_eq!(decimal_string(10), "10");
    let name = timestamped_filename("png");
    assert!(name.starts_with("screenshot-"));
    assert!(name.ends_with(".png"));
    let digits = &name["screenshot-".len()..name.len() - 4];
    assert!(digits.parse::<u64>().unwrap() > 1_600_000_000);
}

#[test]
fn sinks() {
    let f = FileSink::new(PathBuf::from("a/b.png"));
    assert_eq!(f.path, PathBuf::from("a/b.png"));
    let _ = ClipboardSink::new();
}

#[test]
fn a_clock_before_the_epoch_names_second_zero() {
    assert_eq!(filename_since_epoch(None, "png"), "screenshot-0.png");
    assert_eq!(filename_since_epoch(Some(1700000000), "jpg"), "screenshot-1700000000.jpg");
}

#[test]
fn jpeg_pixels_drop_the_alpha_channel() {
    let mut img = Raster::blank(3, 2);
    img.put_pixel(0, 0, (10, 20, 30, 40));
    img.put_pixel(2, 1, (200, 100, 50, 0));
    assert!(pixels_to_encode(ImageEncoding::Png, &img).is_none());
    let rgb = pixels_to_encode(ImageEncoding::Jpeg, &img).unwrap();
    assert_eq!(rgb.image.dimensions(), (3, 2));
    assert_eq!(rgb.image.get_pixel(0, 0).0, [10, 20, 30]);
    assert_eq!(rgb.image.get_pixel(2, 1).0, [200, 100, 50]);
    assert_eq!(rgb.image.get_pixel(1, 1).0, [0, 0, 0]);
}

#[test]
fn output_directory_falls_back_in_order() {
    assert_eq!(output_dir_choice(true, true, true), OutputDir::Pictures);
    assert_eq!(output_dir_choice(true, false, true), OutputDir::Home);
    assert_eq!(output_dir_choice(false, true, true), OutputDir::CurrentDir);
    assert_eq!(output_dir_choice(false, false, false), OutputDir::Dot);
}
