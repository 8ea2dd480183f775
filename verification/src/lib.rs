//! Verified core of the Bloomin8 Canvas desktop controller.

pub mod capture;
pub mod commands;
pub mod config;
pub mod datetime;
pub mod device;
pub mod encoding;
pub mod last_push;
pub mod launch;
pub mod library;
pub mod render_service;
pub mod scheduler;
pub mod widgets;
pub mod text;
pub mod tray;
