//! Display, shader and text-shaping logic of the terminal front end.

pub mod config;
pub mod size_info;
pub mod shaping;
pub mod text;
pub mod shader;
pub mod display;
pub mod ime;
pub mod cursor;
pub mod memory;
