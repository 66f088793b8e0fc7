//! Platform-independent core of a monitor input switcher: configuration
//! resolution, the command vocabulary, the tray model and the capability
//! contracts that keep the core apart from every operating-system binding.

pub mod config;
pub mod platform;
pub mod text;
pub mod tray;
