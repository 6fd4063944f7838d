//! Capture core: classifies global keyboard and mouse activity, tracks the
//! keys that are held, detects the toggle chord and decides what is published.

pub mod commands;
pub mod event;
pub mod keys;
pub mod laws;
pub mod model;
pub mod state;
pub mod tray;
