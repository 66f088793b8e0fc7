//! What the platform bindings of the tray compute.

pub mod macos;
pub mod windows;
