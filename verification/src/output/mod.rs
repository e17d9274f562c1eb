//! Output of a screenshot: to the clipboard or to an image file.
use vstd::prelude::*;

pub mod clipboard;
pub mod file;
pub mod text;

pub use clipboard::ClipboardSink;
pub use file::FileSink;
