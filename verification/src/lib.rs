//! The decisions behind a graphical installer for NVIDIA's official Linux
//! drivers.

pub mod digest;
pub mod download;
pub mod install;
pub mod laws;
pub mod number;
pub mod system;
pub mod text;
pub mod ui;
pub mod versions;
