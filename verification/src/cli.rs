//! The command lines of the programs. The first argument is always the program's own name.

pub mod audio;
pub mod camera;
pub mod can;
pub mod fake;
pub mod realsense;
pub mod serial;
