//! The terminal browser: its state machine and the text helpers of its view.
pub mod app;
pub mod ui;
