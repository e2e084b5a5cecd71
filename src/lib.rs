//! Todo Tray's core: gathers tasks, issues, calendar events and notifications
//! from their sources into one state, sorted and bucketed by local day.
//!
//! - `text`: characters, trimming, splitting, numbers.
//! - `time`: instants, local days, and the chrono calls that read and write them.
//! - `task`: task items, their date flags, task order and the four buckets.
//! - `linear`, `github`, `calendar`: what each source's answers mean.
//! - `engine`: the shown state and how refreshes and commands change it.
//! - `config`: the configuration and what the core is set up with.
//! - `menu`, `notification`, `autostart`: the texts the desktop shows.

pub mod autostart;
pub mod calendar;
pub mod config;
pub mod engine;
pub mod github;
pub mod linear;
pub mod menu;
pub mod notification;
pub mod task;
pub mod text;
pub mod time;
