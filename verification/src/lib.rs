//! A keyboard overlay: one tile per watched key, and above each tile the
//! bars that record how long the key was held, scrolling upwards.
//!
//! The crate holds the rules of the overlay: the defaults and colours of a
//! configuration, the place of each tile, the life of the bars, and the list
//! of drawing steps for a frame. Reading files, polling the keyboard, timing
//! and the window itself are left to the program that uses it.
//!
//! - `config`: the configuration, its defaults and its colours.
//! - `layout`: where the tiles, their borders and glyphs stand.
//! - `key`: one key and its bars.
//! - `timeline`: what holds of a key's bars from frame to frame.
//! - `app`: all keys together, and one turn of the frame loop.
//! - `canvas`: colours, rectangles and drawing steps.
//! - `keycode`: the names of the keys.

pub mod app;
pub mod canvas;
pub mod config;
pub mod key;
pub mod keycode;
pub mod layout;
pub mod timeline;
