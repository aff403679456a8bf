//! A serial console's engine: line endings, scrollback and scrolling, key
//! dispatch, receive formatting and timestamps, each with a proved contract.

pub mod calendar;
pub mod config;
pub mod decimal;
pub mod hex;
pub mod logging;
pub mod port_discovery;
pub mod serial_io;
pub mod strings;
pub mod time_utils;
pub mod ui;
