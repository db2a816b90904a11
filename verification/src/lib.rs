//! Fetching wallpapers from a remote catalog without ever storing one twice.
//!
//! - `wallhaven`: what the catalog describes, and the file name that
//!   identifies a wallpaper.
//! - `database`: the record store of the wallpapers taken in.
//! - `placement`: whether a wallpaper is new, and where it goes on disk.
//! - `download`: the controller that pages through the catalog until enough
//!   new wallpapers are saved.
//! - `config`, `error`: the settings, and what can end a run early.
//! - `refresh`, `archive`, `current`: showing a wallpaper, moving old ones
//!   away, telling which one is on show.
//! - `text`: the text rules that the others share.
//!
//! Apart from its record store the library reads no file and sends no
//! request. Whoever calls it does that, and tells the library what came of
//! it.

pub mod archive;
pub mod config;
pub mod current;
pub mod database;
pub mod download;
pub mod error;
pub mod placement;
pub mod refresh;
pub mod text;
pub mod wallhaven;
