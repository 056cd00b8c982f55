//! Serial ports: how a port is opened.

pub mod baud;

use vstd::prelude::*;

verus! {

/// Serial port configuration.
#[derive(Clone, Debug)]
pub struct SerialConfig {
    /// Port name (e.g., "/dev/ttyUSB0" on Linux, "COM3" on Windows)
    pub port: String,
    /// Baud rate (e.g., 9600, 115200)
    pub baud_rate: u32,
    /// Number of data bits per character
    pub data_bits: DataBits,
    /// Parity checking mode
    pub parity: Parity,
    /// Number of stop bits
    pub stop_bits: StopBits,
}

impl SerialConfig {
    /// Create a new config with common defaults (8N1).
    pub fn new(port: &str, baud_rate: u32) -> (r: Self)
        ensures
            r.port@ == port@,
            r.baud_rate == baud_rate,
            r.data_bits == DataBits::Eight,
            r.parity == Parity::NoParity,
            r.stop_bits == StopBits::One,
    {
        SerialConfig {
            port: port.to_owned(),
            baud_rate,
            data_bits: DataBits::default(),
            parity: Parity::default(),
            stop_bits: StopBits::default(),
        }
    }
}

/// Number of data bits per character.
#[derive(Clone, Copy, Debug, PartialEq, Eq, Structural)]
pub enum DataBits {
    /// 5 data bits
    Five,
    /// 6 data bits
    Six,
    /// 7 data bits (common for ASCII text)
    Seven,
    /// 8 data bits (most common, default)
    Eight,
}

impl Default for DataBits {
    fn default() -> (r: Self)
        ensures
            r == DataBits::Eight,
    {
        DataBits::Eight
    }
}

/// Parity checking mode.
#[derive(Clone, Copy, Debug, PartialEq, Eq, Structural)]
pub enum Parity {
    /// No parity bit (most common, default)
    NoParity,
    /// Odd parity - parity bit set so total 1-bits is odd
    Odd,
    /// Even parity - parity bit set so total 1-bits is even
    Even,
}

impl Default for Parity {
    fn default() -> (r: Self)
        ensures
            r == Parity::NoParity,
    {
        Parity::NoParity
    }
}

/// Number of stop bits.
#[derive(Clone, Copy, Debug, PartialEq, Eq, Structural)]
pub enum StopBits {
    /// 1 stop bit (most common, default)
    One,
    /// 2 stop bits
    Two,
}

impl Default for StopBits {
    fn default() -> (r: Self)
        ensures
            r == StopBits::One,
    {
        StopBits::One
    }
}

/// Information about a detected serial port.
#[derive(Clone, Debug)]
pub struct SerialPortInfo {
    /// Port name (e.g., "/dev/ttyUSB0" on Linux, "COM3" on Windows)
    pub name: String,
    /// Type of port (USB, PCI, Bluetooth, etc.)
    pub port_type: PortType,
}

/// Type of serial port hardware.
#[derive(Clone, Debug)]
pub enum PortType {
    /// USB serial adapter (most common for external devices)
    Usb {
        /// USB Vendor ID
        vid: u16,
        /// USB Product ID
        pid: u16,
        /// Manufacturer name (if available)
        manufacturer: Option<String>,
        /// Product name (if available)
        product: Option<String>,
    },
    /// PCI/PCIe serial card
    Pci,
    /// Bluetooth serial port
    Bluetooth,
    /// Unknown or unidentified port type
    Unknown,
}

} // verus!
