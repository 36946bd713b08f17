//! The channel rack: channels, their step patterns and instrument chains.

pub mod channel;
pub mod commands;
pub mod convert;
pub mod pattern;
pub mod schedule;
pub mod state;
pub mod ui;
