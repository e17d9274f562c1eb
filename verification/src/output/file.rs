//! Image files: their names and their encoding.
use vstd::prelude::*;
use std::path::PathBuf;
use std::time::{Duration, SystemTime, UNIX_EPOCH};

use crate::raster::{is_opaque_copy, Raster, RgbRaster};
use crate::output::text::{
    decimal, decimal_string, eq_ignore_ascii_case, same_ignoring_ascii_case,
};

verus! {

/// Saves screenshots to one file.
#[derive(Debug)]
pub struct FileSink {
    pub path: PathBuf,
}

impl FileSink {
    pub fn new(path: PathBuf) -> (s: Self)
        ensures
            s.path == path,
    {
        FileSink { path }
    }
}

/// How a screenshot file is encoded.
#[derive(Clone, Copy, Debug, PartialEq, Eq, Structural)]
pub enum ImageEncoding {
    /// PNG, with the alpha channel.
    Png,
    /// JPEG, with the alpha channel dropped.
    Jpeg,
}

/// Whether a name denotes JPEG: "jpg" or "jpeg" in any ASCII case.
pub open spec fn names_jpeg(s: Seq<char>) -> bool {
    same_ignoring_ascii_case(s, "jpg"@) || same_ignoring_ascii_case(s, "jpeg"@)
}

/// The file extension for the configured image format: "jpg" when the format names
/// JPEG, "png" otherwise.
pub fn output_extension(format: &str) -> (ext: &'static str)
    ensures
        ext@ == if names_jpeg(format@) {
            "jpg"@
        } else {
            "png"@
        },
{
    if eq_ignore_ascii_case(format, "jpg") || eq_ignore_ascii_case(format, "jpeg") {
        "jpg"
    } else {
        "png"
    }
}

/// The encoding a file gets from its extension: JPEG for "jpg" and "jpeg" in any ASCII
/// case, PNG for any other extension and for none.
pub fn encoding_for_extension(ext: Option<&str>) -> (e: ImageEncoding)
    ensures
        e == match ext {
            Some(x) => if names_jpeg(x@) {
                ImageEncoding::Jpeg
            } else {
                ImageEncoding::Png
            },
            None => ImageEncoding::Png,
        },
{
    match ext {
        Some(x) => {
            if eq_ignore_ascii_case(x, "jpg") || eq_ignore_ascii_case(x, "jpeg") {
                ImageEncoding::Jpeg
            } else {
                ImageEncoding::Png
            }
        },
        None => ImageEncoding::Png,
    }
}

/// The pixels a file of the given encoding gets from `img`: a PNG file takes the image
/// as it is (`None`); a JPEG file takes a copy without the alpha channel.
pub fn pixels_to_encode(encoding: ImageEncoding, img: &Raster) -> (r: Option<RgbRaster>)
    ensures
        encoding == ImageEncoding::Png ==> r is None,
        encoding == ImageEncoding::Jpeg ==> (r matches Some(c) && is_opaque_copy(c, *img)),
{
    match encoding {
        ImageEncoding::Png => None,
        ImageEncoding::Jpeg => Some(img.without_alpha()),
    }
}

/// The default file name of a screenshot taken `secs` seconds after the Unix epoch.
pub open spec fn screenshot_name(secs: nat, ext: Seq<char>) -> Seq<char> {
    "screenshot-"@ + decimal(secs) + "."@ + ext
}

/// The file name `screenshot-<secs>.<ext>`.
pub fn filename_at(secs: u64, ext: &str) -> (name: String)
    ensures
        name@ == screenshot_name(secs as nat, ext@),
{
    let mut name = "screenshot-".to_owned();
    let digits = decimal_string(secs);
    name.append(digits.as_str());
    name.append(".");
    name.append(ext);
    name
}

#[verifier::external_type_specification]
#[verifier::external_body]
pub struct ExSystemTime(SystemTime);

/// `SystemTime::now`: the current time of the system clock.
#[verifier::external_body]
fn system_now() -> SystemTime {
    SystemTime::now()
}

/// `SystemTime::duration_since(UNIX_EPOCH)`; `None` when the time is before the epoch.
#[verifier::external_body]
fn since_epoch(t: &SystemTime) -> Option<Duration> {
    t.duration_since(UNIX_EPOCH).ok()
}

/// `Duration::as_secs`: the whole seconds of a duration.
#[verifier::external_body]
fn whole_seconds(d: &Duration) -> u64 {
    d.as_secs()
}

/// The seconds a file name carries: those since the epoch, or 0 for a clock
/// reading before the epoch (`None`).
pub open spec fn stamp_seconds(since_epoch: Option<u64>) -> nat {
    match since_epoch {
        Some(s) => s as nat,
        None => 0,
    }
}

/// The default file name for a clock reading given as whole seconds since the epoch,
/// `None` when the reading lies before the epoch, which counts as 0.
pub fn filename_since_epoch(since_epoch: Option<u64>, ext: &str) -> (name: String)
    ensures
        name@ == screenshot_name(stamp_seconds(since_epoch), ext@),
{
    let secs = match since_epoch {
        Some(s) => s,
        None => 0,
    };
    filename_at(secs, ext)
}

/// A default file name from the current time, such as `screenshot-1700000000.png`;
/// a clock before the epoch counts as 0.
pub fn timestamped_filename(ext: &str) -> (name: String)
    ensures
        exists|s: Option<u64>| name@ == screenshot_name(#[trigger] stamp_seconds(s), ext@),
{
    let now = system_now();
    let secs = match since_epoch(&now) {
        Some(d) => Some(whole_seconds(&d)),
        None => None,
    };
    filename_since_epoch(secs, ext)
}

/// Where screenshots are saved by default.
#[derive(Clone, Copy, Debug, PartialEq, Eq, Structural)]
pub enum OutputDir {
    /// `Pictures` under the home directory.
    Pictures,
    /// The home directory.
    Home,
    /// The current directory as the process reports it.
    CurrentDir,
    /// `.`, when the current directory cannot be read.
    Dot,
}

/// The default output directory: `Pictures` under the home directory when the home
/// is known and that is a directory, else the home directory; without a home, the
/// current directory, or `.` when it cannot be read.
pub fn output_dir_choice(home_known: bool, pictures_is_dir: bool, current_known: bool) -> (d:
    OutputDir)
    ensures
        d == if home_known {
            if pictures_is_dir {
                OutputDir::Pictures
            } else {
                OutputDir::Home
            }
        } else if current_known {
            OutputDir::CurrentDir
        } else {
            OutputDir::Dot
        },
{
    if home_known {
        if pictures_is_dir {
            OutputDir::Pictures
        } else {
            OutputDir::Home
        }
    } else if current_known {
        OutputDir::CurrentDir
    } else {
        OutputDir::Dot
    }
}

} // verus!
