//! Switching a two-monitor desktop between mirror, extend and single-screen
//! layouts, with remembered extend-mode preferences per pair of monitors.
//!
//! - [`layout`]: pixel offsets and rotation transforms for an extend layout.
//! - [`modes`]: the resolutions a monitor supports, read from capability text.
//! - [`config`]: the store of extend-mode preferences.
//! - [`display`]: the command sequence for each display mode.
//! - [`state`]: the modes a user picks and the extend settings being edited.
//! - [`text`]: character-level helpers.
pub mod config;
pub mod display;
pub mod layout;
pub mod modes;
pub mod state;
pub mod text;
