//! dMeter core: the verified logic of a terminal system monitor.
//!
//! The crate holds the parts of the monitor that compute: Conway's Game of
//! Life shown in the bottom panel, the sliding history windows behind the
//! sparklines, the human-readable formatting of sizes and durations, the
//! panel layout, the configuration rules and the parsers for the text that
//! the operating system hands back. Reading the machine, drawing the
//! terminal and running the event loop live in the binary around it.

pub mod clock;
pub mod gol;
pub mod history;
pub mod text;
pub mod format;
pub mod config;
pub mod state;
pub mod layout;
pub mod parse;
pub mod memory_info;
pub mod collect;
pub mod ui;
pub mod schedule;
