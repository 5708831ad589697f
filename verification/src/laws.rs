//! What holds of the library as a whole, stated by inputs and results.

pub mod download;
pub mod install;
pub mod system;
pub mod text;
pub mod ui;
pub mod versions;
pub mod views;
