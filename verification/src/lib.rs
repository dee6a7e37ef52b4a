//! Scheduling core of a light/dark theme and wallpaper switcher.
//!
//! The library decides which colour mode should be active at a given moment,
//! when the next switch happens, how a tick of the scheduler reacts to the
//! theme that the system reports, and how configuration input is corrected.
//! The system calls (theme, wallpaper, lock screen), the clock, the
//! configuration file and the sun computation are the caller's: it hands
//! their results in as plain values and performs the steps that the library
//! plans. The library itself resolves local times in the machine's time
//! zone, asks whether wallpaper files exist, and has thumbnails made by the
//! image crate.
//!
//! Modules:
//! - `config`: colour modes, day filters, schedules, the configuration and
//!   its correction;
//! - `clock`: local moments, days of the week, local time resolution;
//! - `files`: joining paths and checking files;
//! - `scheduler`: the switches of a day, the current and next switch, the
//!   tick decisions and the bookkeeping of the scheduler state;
//! - `platform`: registry values, the helper task definition, UTF-16 text;
//! - `resources`: finding the built-in wallpapers;
//! - `cli`: command-line actions and tray menu entries;
//! - `thumbnail`: JPEG thumbnails, base64 and `data:` URLs;
//! - `text`: decimal formatting, case folding, comparison, joining.

pub mod cli;
pub mod clock;
pub mod config;
pub mod files;
pub mod platform;
pub mod resources;
pub mod scheduler;
pub mod text;
pub mod thumbnail;
