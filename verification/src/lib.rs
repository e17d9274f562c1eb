//! Screenshot tool core: capture geometry, scroll stitching, annotation
//! history, mosaic, configuration and the decisions of the application loop.
pub mod capture;
pub mod raster;
pub mod editor;
pub mod tray;
pub mod config;
pub mod hotkey;
pub mod overlay;
pub mod settings;
pub mod output;
pub mod fonts;
pub mod app;
