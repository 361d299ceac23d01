//! Mouse sensitivity: the decision logic behind a tool that sets pointer
//! tracking speed on macOS, reads mouse sensor resolution over vendor
//! protocols, and keeps per-device settings.

pub mod cli;
pub mod config;
pub mod daemon;
pub mod hid;
pub mod known;
pub mod text;
pub mod vendor;
