//! The tray: its commands, its menu and the model behind them.

pub mod commands;
pub mod common;
pub mod menu;
pub mod model;
pub mod platform;
pub mod startup;
