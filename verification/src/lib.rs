//! Decision logic of a tray app that shows on a USB light whether the
//! microphone or camera is in use.

pub mod text;
pub mod config;
pub mod manager;
pub mod light;
pub mod detect;
pub mod tray;
pub mod commands;
pub mod layers;
pub mod laws;
