//! Common baud rates as constants.

use vstd::prelude::*;

verus! {

/// 9600 baud
pub const B9600: u32 = 9600;

/// 19200 baud
pub const B19200: u32 = 19200;

/// 38400 baud
pub const B38400: u32 = 38400;

/// 57600 baud
pub const B57600: u32 = 57600;

/// 115200 baud (most common)
pub const B115200: u32 = 115200;

/// 230400 baud
pub const B230400: u32 = 230400;

/// 460800 baud
pub const B460800: u32 = 460800;

/// 921600 baud
pub const B921600: u32 = 921600;

} // verus!
