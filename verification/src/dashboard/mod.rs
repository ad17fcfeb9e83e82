//! The terminal dashboard: palette, views, menu and navigation state.
pub mod actions;
pub mod app;
pub mod chrome;
pub mod geometry;
pub mod input;
pub mod progress;
pub mod refresh;
pub mod settings;
pub mod theme;
pub mod views;
