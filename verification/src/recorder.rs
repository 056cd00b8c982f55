//! Recording of live broadcasts: where they come from, and how their pieces go into one file.

pub mod clock;
pub mod config;
pub mod fragments;
pub mod json;
pub mod session;
