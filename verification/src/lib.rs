//! Robotics media and bus plumbing.

pub mod address;
pub mod annex_b;
pub mod audio;
pub mod audio_macos;
pub mod audio_server;
pub mod av1_decoder;
pub mod bridge_server;
pub mod camera;
pub mod camera_macos;
pub mod camera_server;
pub mod can;
pub mod can_server;
pub mod can_types;
pub mod chat;
pub mod cli;
pub mod cmaf;
pub mod damiao;
pub mod dav1d_decoder;
pub mod endian;
pub mod frame;
pub mod iroh;
pub mod moq;
pub mod moq_can_server;
pub mod nvdec_av1_decoder;
pub mod nvenc_av1;
pub mod opencv;
pub mod pixels;
pub mod rates;
pub mod realsense;
pub mod realsense_client;
pub mod realsense_server;
pub mod recorder;
pub mod serial;
pub mod text;
