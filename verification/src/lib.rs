//! Sticky Picture-in-Picture and pinned-window management for the Niri compositor.
pub mod text;
pub mod config;
pub mod model;
pub mod pattern;
pub mod geometry;
pub mod detector;
pub mod named;
pub mod idmap;
pub mod protocol;
pub mod state;
pub mod engine;
pub mod cli;
pub mod daemon;
pub mod niri;
pub mod ui;
