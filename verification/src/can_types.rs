//! Platform-independent CAN bus types and traits.
//!
//! This module contains CAN frame types and the `CanBusSocket` trait that work
//! on any platform. The actual socket implementations are platform-specific.

pub mod wire;

use vstd::prelude::*;

verus! {

/// Trait for CAN bus socket implementations.
///
/// This allows both local socketcan and remote xoq sockets to be used interchangeably.
/// Implementing this trait enables generic code to work with any CAN socket type.
pub trait CanBusSocket: Send + Sync {
    /// What can go wrong on the socket.
    type Error;

    /// Check if socket is open/connected.
    fn is_open(&self) -> bool;

    /// Write a raw CAN frame.
    fn write_raw(&self, can_id: u32, data: &[u8]) -> Result<(), Self::Error>;

    /// Read a raw CAN frame. Returns None on timeout.
    fn read_raw(&self) -> Result<Option<(u32, Vec<u8>)>, Self::Error>;

    /// Check if data is available with timeout (microseconds).
    fn is_data_available(&self, timeout_us: u64) -> Result<bool, Self::Error>;

    /// Set receive timeout in microseconds.
    fn set_recv_timeout(&mut self, timeout_us: u64) -> Result<(), Self::Error>;
}

/// Why a frame could not be made.
#[derive(Debug, Clone, Copy, PartialEq, Eq, Structural)]
pub enum CanError {
    /// CAN frame data cannot exceed 8 bytes
    DataTooLong,
    /// CAN RTR DLC cannot exceed 8
    DlcTooLarge,
    /// CAN FD frame data cannot exceed 64 bytes
    FdDataTooLong,
    /// A canfd_frame takes 72 bytes
    ShortBuffer { got: usize },
    /// Invalid extended CAN ID
    InvalidExtendedId { id: u32 },
    /// Invalid standard CAN ID
    InvalidStandardId { id: u32 },
    /// Cannot convert error frame to CanFrame
    ErrorFrame,
    /// CAN FD frames not supported on standard CAN socket
    FdUnsupported,
}

/// A standard CAN frame.
///
/// Supports up to 8 bytes of data.
#[derive(Debug)]
pub struct CanFrame {
    id: u32,
    data: Vec<u8>,
    pub(crate) is_extended: bool,
    is_remote: bool,
    is_error: bool,
}

/// What a [`CanFrame`] holds.
#[verifier::ext_equal]
pub struct Frame {
    pub id: u32,
    pub data: Seq<u8>,
    pub is_extended: bool,
    pub is_remote: bool,
    pub is_error: bool,
}

impl Frame {
    pub open spec fn wf(self) -> bool {
        self.data.len() <= 8
    }
}

impl View for CanFrame {
    type V = Frame;

    closed spec fn view(&self) -> Frame {
        Frame {
            id: self.id,
            data: self.data@,
            is_extended: self.is_extended,
            is_remote: self.is_remote,
            is_error: self.is_error,
        }
    }
}

impl CanFrame {
    #[verifier::type_invariant]
    spec fn valid(self) -> bool {
        self@.wf()
    }

    /// Create a new standard CAN frame.
    ///
    /// # Arguments
    /// * `id` - CAN identifier (11-bit for standard, 29-bit for extended)
    /// * `data` - Frame data (up to 8 bytes)
    pub fn new(id: u32, data: &[u8]) -> (r: Result<Self, CanError>)
        ensures
            match r {
                Ok(f) => data@.len() <= 8 && f@ == (Frame {
                    id,
                    data: data@,
                    is_extended: id > 0x7FF,
                    is_remote: false,
                    is_error: false,
                }),
                Err(e) => data@.len() > 8 && e == CanError::DataTooLong,
            },
    {
        if data.len() > 8 {
            return Err(CanError::DataTooLong);
        }
        Ok(
            CanFrame {
                id,
                data: vstd::slice::slice_to_vec(data),
                is_extended: id > 0x7FF,
                is_remote: false,
                is_error: false,
            },
        )
    }

    /// Create a new extended CAN frame.
    pub fn new_extended(id: u32, data: &[u8]) -> (r: Result<Self, CanError>)
        ensures
            match r {
                Ok(f) => data@.len() <= 8 && f@ == (Frame {
                    id,
                    data: data@,
                    is_extended: true,
                    is_remote: false,
                    is_error: false,
                }),
                Err(e) => data@.len() > 8 && e == CanError::DataTooLong,
            },
    {
        if data.len() > 8 {
            return Err(CanError::DataTooLong);
        }
        Ok(
            CanFrame {
                id,
                data: vstd::slice::slice_to_vec(data),
                is_extended: true,
                is_remote: false,
                is_error: false,
            },
        )
    }

    /// Create a remote transmission request frame.
    pub fn new_remote(id: u32, dlc: u8) -> (r: Result<Self, CanError>)
        ensures
            match r {
                Ok(f) => dlc <= 8 && f@ == (Frame {
                    id,
                    data: Seq::new(dlc as nat, |i: int| 0u8),
                    is_extended: id > 0x7FF,
                    is_remote: true,
                    is_error: false,
                }),
                Err(e) => dlc > 8 && e == CanError::DlcTooLarge,
            },
    {
        if dlc > 8 {
            return Err(CanError::DlcTooLarge);
        }
        let data: Vec<u8> = vec![0; dlc as usize];
        assert(data@ =~= Seq::new(dlc as nat, |i: int| 0u8));
        Ok(CanFrame { id, data, is_extended: id > 0x7FF, is_remote: true, is_error: false })
    }

    /// The frame with the identifier format stated.
    pub(crate) fn with_format(self, is_extended: bool) -> (r: Self)
        ensures
            r@ == (Frame { is_extended, ..self@ }),
    {
        proof {
            use_type_invariant(&self);
        }
        CanFrame {
            id: self.id,
            data: self.data,
            is_extended,
            is_remote: self.is_remote,
            is_error: self.is_error,
        }
    }

    /// Get the CAN identifier.
    pub fn id(&self) -> (r: u32)
        ensures
            r == self@.id,
    {
        self.id
    }

    /// Get the frame data.
    pub fn data(&self) -> (r: &[u8])
        ensures
            r@ == self@.data,
            r@.len() <= 8,
    {
        proof {
            use_type_invariant(self);
        }
        &self.data
    }

    /// Check if this is an extended frame (29-bit ID).
    pub fn is_extended(&self) -> (r: bool)
        ensures
            r == self@.is_extended,
    {
        self.is_extended
    }

    /// Check if this is a remote transmission request.
    pub fn is_remote(&self) -> (r: bool)
        ensures
            r == self@.is_remote,
    {
        self.is_remote
    }

    /// Check if this is an error frame.
    pub fn is_error(&self) -> (r: bool)
        ensures
            r == self@.is_error,
    {
        self.is_error
    }

    /// Get the data length code.
    pub fn dlc(&self) -> (r: u8)
        ensures
            r == self@.data.len(),
    {
        proof {
            use_type_invariant(self);
        }
        self.data.len() as u8
    }
}

impl Clone for CanFrame {
    fn clone(&self) -> (r: Self)
        ensures
            r@ == self@,
    {
        proof {
            use_type_invariant(self);
        }
        CanFrame {
            id: self.id,
            data: vstd::slice::slice_to_vec(self.data.as_slice()),
            is_extended: self.is_extended,
            is_remote: self.is_remote,
            is_error: self.is_error,
        }
    }
}

/// CAN FD specific flags.
#[derive(Clone, Copy, Debug, PartialEq, Eq, Structural)]
pub struct CanFdFlags {
    /// Bit rate switch - data phase at higher bit rate
    pub brs: bool,
    /// Error state indicator
    pub esi: bool,
}

impl Default for CanFdFlags {
    fn default() -> (r: Self)
        ensures
            !r.brs,
            !r.esi,
    {
        CanFdFlags { brs: false, esi: false }
    }
}

/// A CAN FD frame.
///
/// Supports up to 64 bytes of data with flexible data rate.
#[derive(Debug)]
pub struct CanFdFrame {
    id: u32,
    data: Vec<u8>,
    pub(crate) is_extended: bool,
    flags: CanFdFlags,
}

/// What a [`CanFdFrame`] holds.
#[verifier::ext_equal]
pub struct FdFrame {
    pub id: u32,
    pub data: Seq<u8>,
    pub is_extended: bool,
    pub flags: CanFdFlags,
}

impl FdFrame {
    pub open spec fn wf(self) -> bool {
        self.data.len() <= 64
    }
}

impl View for CanFdFrame {
    type V = FdFrame;

    closed spec fn view(&self) -> FdFrame {
        FdFrame {
            id: self.id,
            data: self.data@,
            is_extended: self.is_extended,
            flags: self.flags,
        }
    }
}

impl CanFdFrame {
    #[verifier::type_invariant]
    spec fn valid(self) -> bool {
        self@.wf()
    }

    /// Create a new CAN FD frame.
    ///
    /// # Arguments
    /// * `id` - CAN identifier
    /// * `data` - Frame data (up to 64 bytes)
    pub fn new(id: u32, data: &[u8]) -> (r: Result<Self, CanError>)
        ensures
            match r {
                Ok(f) => data@.len() <= 64 && f@ == (FdFrame {
                    id,
                    data: data@,
                    is_extended: id > 0x7FF,
                    flags: CanFdFlags { brs: false, esi: false },
                }),
                Err(e) => data@.len() > 64 && e == CanError::FdDataTooLong,
            },
    {
        Self::new_with_flags(id, data, CanFdFlags { brs: false, esi: false })
    }

    /// Create a new CAN FD frame with flags.
    pub fn new_with_flags(id: u32, data: &[u8], flags: CanFdFlags) -> (r: Result<Self, CanError>)
        ensures
            match r {
                Ok(f) => data@.len() <= 64 && f@ == (FdFrame {
                    id,
                    data: data@,
                    is_extended: id > 0x7FF,
                    flags,
                }),
                Err(e) => data@.len() > 64 && e == CanError::FdDataTooLong,
            },
    {
        if data.len() > 64 {
            return Err(CanError::FdDataTooLong);
        }
        Ok(
            CanFdFrame {
                id,
                data: vstd::slice::slice_to_vec(data),
                is_extended: id > 0x7FF,
                flags,
            },
        )
    }

    /// The frame with the identifier format stated.
    pub(crate) fn with_format(self, is_extended: bool) -> (r: Self)
        ensures
            r@ == (FdFrame { is_extended, ..self@ }),
    {
        proof {
            use_type_invariant(&self);
        }
        CanFdFrame { id: self.id, data: self.data, is_extended, flags: self.flags }
    }

    /// Get the CAN identifier.
    pub fn id(&self) -> (r: u32)
        ensures
            r == self@.id,
    {
        self.id
    }

    /// Get the frame data.
    pub fn data(&self) -> (r: &[u8])
        ensures
            r@ == self@.data,
            r@.len() <= 64,
    {
        proof {
            use_type_invariant(self);
        }
        &self.data
    }

    /// Check if this is an extended frame.
    pub fn is_extended(&self) -> (r: bool)
        ensures
            r == self@.is_extended,
    {
        self.is_extended
    }

    /// Get the FD flags.
    pub fn flags(&self) -> (r: CanFdFlags)
        ensures
            r == self@.flags,
    {
        self.flags
    }

    /// Get the data length.
    pub fn len(&self) -> (r: usize)
        ensures
            r == self@.data.len(),
    {
        self.data.len()
    }

    /// Check if the frame has no data.
    pub fn is_empty(&self) -> (r: bool)
        ensures
            r == (self@.data.len() == 0),
    {
        self.data.is_empty()
    }
}

impl Clone for CanFdFrame {
    fn clone(&self) -> (r: Self)
        ensures
            r@ == self@,
    {
        proof {
            use_type_invariant(self);
        }
        CanFdFrame {
            id: self.id,
            data: vstd::slice::slice_to_vec(self.data.as_slice()),
            is_extended: self.is_extended,
            flags: self.flags,
        }
    }
}

/// Either a standard CAN frame or a CAN FD frame.
#[derive(Debug)]
pub enum AnyCanFrame {
    /// Standard CAN frame (up to 8 bytes)
    Can(CanFrame),
    /// CAN FD frame (up to 64 bytes)
    CanFd(CanFdFrame),
}

/// What an [`AnyCanFrame`] holds.
#[verifier::ext_equal]
pub enum AnyFrame {
    Can(Frame),
    CanFd(FdFrame),
}

impl AnyFrame {
    pub open spec fn wf(self) -> bool {
        match self {
            AnyFrame::Can(f) => f.wf(),
            AnyFrame::CanFd(f) => f.wf(),
        }
    }

    pub open spec fn id(self) -> u32 {
        match self {
            AnyFrame::Can(f) => f.id,
            AnyFrame::CanFd(f) => f.id,
        }
    }

    pub open spec fn data(self) -> Seq<u8> {
        match self {
            AnyFrame::Can(f) => f.data,
            AnyFrame::CanFd(f) => f.data,
        }
    }
}

impl View for AnyCanFrame {
    type V = AnyFrame;

    open spec fn view(&self) -> AnyFrame {
        match *self {
            AnyCanFrame::Can(f) => AnyFrame::Can(f@),
            AnyCanFrame::CanFd(f) => AnyFrame::CanFd(f@),
        }
    }
}

impl AnyCanFrame {
    /// Get the CAN identifier.
    pub fn id(&self) -> (r: u32)
        ensures
            r == self@.id(),
    {
        match self {
            AnyCanFrame::Can(f) => f.id(),
            AnyCanFrame::CanFd(f) => f.id(),
        }
    }

    /// Get the frame data.
    pub fn data(&self) -> (r: &[u8])
        ensures
            r@ == self@.data(),
            r@.len() <= 64,
            self@ is Can ==> r@.len() <= 8,
    {
        match self {
            AnyCanFrame::Can(f) => f.data(),
            AnyCanFrame::CanFd(f) => f.data(),
        }
    }

    /// Check if this is a CAN FD frame.
    pub fn is_fd(&self) -> (r: bool)
        ensures
            r == (self@ is CanFd),
    {
        matches!(self, AnyCanFrame::CanFd(_))
    }
}

impl Clone for AnyCanFrame {
    fn clone(&self) -> (r: Self)
        ensures
            r@ == self@,
    {
        match self {
            AnyCanFrame::Can(f) => AnyCanFrame::Can(f.clone()),
            AnyCanFrame::CanFd(f) => AnyCanFrame::CanFd(f.clone()),
        }
    }
}

/// Information about a CAN interface.
#[derive(Clone, Debug)]
pub struct CanInterfaceInfo {
    /// Interface name (e.g., "can0", "vcan0")
    pub name: String,
}

} // verus!
