//! Local CAN bus access: configuration, and what goes to and comes from a socket.
//!
//! A socket is opened either for standard CAN or for CAN FD. The frames that it hands out and
//! takes in are described here by plain values, so that the rules on identifiers, remote
//! frames and error frames stand apart from the socket itself.

use crate::can_types::{
    wire, AnyCanFrame, AnyFrame, CanError, CanFdFlags, CanFdFrame, CanFrame, FdFrame, Frame,
};
use crate::endian::low16;
use crate::text::{chars_of, parse_number, parsed, string_of, trim, trimmed};
use vstd::arithmetic::power2::{lemma2_to64, pow2};
use vstd::prelude::*;

verus! {

/// CAN socket configuration.
///
/// Specifies all parameters needed to open a CAN interface.
#[derive(Clone, Debug)]
pub struct CanConfig {
    /// Interface name (e.g., "can0", "vcan0")
    pub interface: String,
    /// Enable CAN FD support
    pub enable_fd: bool,
    /// Read timeout in milliseconds
    pub read_timeout_ms: u64,
}

impl CanConfig {
    /// Create a new config with defaults.
    pub fn new(interface: &str) -> (r: Self)
        ensures
            r.interface@ == interface@,
            !r.enable_fd,
            r.read_timeout_ms == 100,
    {
        CanConfig { interface: interface.to_owned(), enable_fd: false, read_timeout_ms: 100 }
    }

    /// Create a new config with CAN FD enabled.
    pub fn new_fd(interface: &str) -> (r: Self)
        ensures
            r.interface@ == interface@,
            r.enable_fd,
            r.read_timeout_ms == 100,
    {
        CanConfig { interface: interface.to_owned(), enable_fd: true, read_timeout_ms: 100 }
    }
}

/// An identifier that a socket accepts.
#[derive(Debug, Clone, Copy, PartialEq, Eq, Structural)]
pub enum BusId {
    /// 11 bits
    Standard(u16),
    /// 29 bits
    Extended(u32),
}

/// The identifier under which a frame goes to the socket. Of a standard identifier the low 16
/// bits are looked at.
pub open spec fn bus_id_of(id: u32, is_extended: bool) -> Result<BusId, CanError> {
    if is_extended {
        if id <= 0x1FFFFFFF {
            Ok(BusId::Extended(id))
        } else {
            Err(CanError::InvalidExtendedId { id })
        }
    } else if id % 0x1_0000 <= 0x7FF {
        Ok(BusId::Standard((id % 0x1_0000) as u16))
    } else {
        Err(CanError::InvalidStandardId { id })
    }
}

/// Checks an identifier before it goes to a socket.
pub fn bus_id(id: u32, is_extended: bool) -> (r: Result<BusId, CanError>)
    ensures
        r == bus_id_of(id, is_extended),
{
    if is_extended {
        if id <= 0x1FFFFFFF {
            Ok(BusId::Extended(id))
        } else {
            Err(CanError::InvalidExtendedId { id })
        }
    } else {
        let low: u16 = low16(id as u64);
        if low <= 0x7FF {
            Ok(BusId::Standard(low))
        } else {
            Err(CanError::InvalidStandardId { id })
        }
    }
}

/// A frame that is ready to be written to a socket.
#[derive(Debug)]
pub enum BusWrite {
    /// A data frame
    Data { id: BusId, data: Vec<u8> },
    /// An FD frame
    Fd { id: BusId, data: Vec<u8>, flags: CanFdFlags },
}

/// What a [`BusWrite`] holds.
#[verifier::ext_equal]
pub enum Written {
    Data { id: BusId, data: Seq<u8> },
    Fd { id: BusId, data: Seq<u8>, flags: CanFdFlags },
}

impl View for BusWrite {
    type V = Written;

    open spec fn view(&self) -> Written {
        match *self {
            BusWrite::Data { id, data } => Written::Data { id, data: data@ },
            BusWrite::Fd { id, data, flags } => Written::Fd { id, data: data@, flags },
        }
    }
}

/// What is written to a socket for a frame.
pub open spec fn written(frame: AnyFrame, fd_socket: bool) -> Result<Written, CanError> {
    match frame {
        AnyFrame::Can(f) => match bus_id_of(f.id, f.is_extended) {
            Ok(id) => Ok(Written::Data { id, data: f.data }),
            Err(e) => Err(e),
        },
        AnyFrame::CanFd(f) => if !fd_socket {
            Err(CanError::FdUnsupported)
        } else {
            match bus_id_of(f.id, f.is_extended) {
                Ok(id) => Ok(Written::Fd { id, data: f.data, flags: f.flags }),
                Err(e) => Err(e),
            }
        },
    }
}

/// Prepares a frame for a socket. A standard socket takes no FD frames.
pub fn transmit(frame: &AnyCanFrame, fd_socket: bool) -> (r: Result<BusWrite, CanError>)
    ensures
        match r {
            Ok(w) => written(frame@, fd_socket) == Ok::<Written, CanError>(w@),
            Err(e) => written(frame@, fd_socket) == Err::<Written, CanError>(e),
        },
{
    match frame {
        AnyCanFrame::Can(f) => match bus_id(f.id(), f.is_extended()) {
            Ok(id) => Ok(BusWrite::Data { id, data: vstd::slice::slice_to_vec(f.data()) }),
            Err(e) => Err(e),
        },
        AnyCanFrame::CanFd(f) => {
            if !fd_socket {
                return Err(CanError::FdUnsupported);
            }
            match bus_id(f.id(), f.is_extended()) {
                Ok(id) => Ok(
                    BusWrite::Fd {
                        id,
                        data: vstd::slice::slice_to_vec(f.data()),
                        flags: f.flags(),
                    },
                ),
                Err(e) => Err(e),
            }
        },
    }
}

/// A frame that was read from a socket.
#[derive(Debug)]
pub enum BusRead {
    /// A data frame
    Data { id: u32, is_extended: bool, data: Vec<u8> },
    /// A remote transmission request
    Remote { id: u32, dlc: u8 },
    /// An error frame
    Error,
    /// An FD frame
    Fd { id: u32, data: Vec<u8>, flags: CanFdFlags },
}

/// What becomes of a frame that was read.
#[derive(Debug)]
pub enum Received {
    /// Hand it on.
    Frame(AnyCanFrame),
    /// Pass over it.
    Skip,
    /// Report that it could not be converted.
    Failed(CanError),
}

/// Whether a frame that was read becomes `frame`.
pub open spec fn becomes(read: BusRead, frame: AnyFrame) -> bool {
    match read {
        BusRead::Data { id, is_extended, data } => data@.len() <= 8 && frame == AnyFrame::Can(
            Frame { id, data: data@, is_extended, is_remote: false, is_error: false },
        ),
        BusRead::Remote { id, dlc } => dlc <= 8 && frame == AnyFrame::Can(
            Frame {
                id,
                data: Seq::new(dlc as nat, |i: int| 0u8),
                is_extended: id > 0x7FF,
                is_remote: true,
                is_error: false,
            },
        ),
        BusRead::Error => false,
        BusRead::Fd { id, data, flags } => data@.len() <= 64 && frame == AnyFrame::CanFd(
            FdFrame { id, data: data@, is_extended: id > 0x7FF, flags },
        ),
    }
}

/// The error that a frame brings which cannot be converted.
pub open spec fn conversion_error(read: BusRead) -> Option<CanError> {
    match read {
        BusRead::Data { id, is_extended, data } => if data@.len() > 8 {
            Some(CanError::DataTooLong)
        } else {
            None
        },
        BusRead::Remote { id, dlc } => if dlc > 8 {
            Some(CanError::DlcTooLarge)
        } else {
            None
        },
        BusRead::Error => Some(CanError::ErrorFrame),
        BusRead::Fd { id, data, flags } => if data@.len() > 64 {
            Some(CanError::FdDataTooLong)
        } else {
            None
        },
    }
}

/// Takes in a frame from a socket. A socket for CAN FD passes over remote and error frames; a
/// standard socket hands remote frames on and reports error frames.
pub fn receive(read: BusRead, fd_socket: bool) -> (r: Received)
    ensures
        match r {
            Received::Frame(f) => becomes(read, f@) && !(fd_socket && (read is Remote || read is Error)),
            Received::Skip => fd_socket && (read is Remote || read is Error),
            Received::Failed(e) => conversion_error(read) == Some(e) && !(fd_socket && (read is Remote
                || read is Error)),
        },
{
    match read {
        BusRead::Data { id, is_extended, data } => match CanFrame::new(id, &data) {
            Ok(f) => Received::Frame(AnyCanFrame::Can(f.with_format(is_extended))),
            Err(e) => Received::Failed(e),
        },
        BusRead::Remote { id, dlc } => {
            if fd_socket {
                return Received::Skip;
            }
            match CanFrame::new_remote(id, dlc) {
                Ok(f) => Received::Frame(AnyCanFrame::Can(f)),
                Err(e) => Received::Failed(e),
            }
        },
        BusRead::Error => {
            if fd_socket {
                return Received::Skip;
            }
            Received::Failed(CanError::ErrorFrame)
        },
        BusRead::Fd { id, data, flags } => match CanFdFrame::new_with_flags(id, &data, flags) {
            Ok(f) => Received::Frame(AnyCanFrame::CanFd(f)),
            Err(e) => Received::Failed(e),
        },
    }
}

/// How a read from a socket went.
#[derive(Debug)]
pub enum SocketRead {
    /// A frame was there.
    Frame(BusRead),
    /// None came in time.
    Idle,
    /// The socket failed.
    Failed,
}

/// What the reading thread answers to a request for a frame.
#[derive(Debug)]
pub enum ReadReply {
    /// A frame.
    Frame(AnyCanFrame),
    /// No frame came in time.
    Timeout,
    /// A frame came that cannot be converted.
    NotConverted(CanError),
    /// The socket failed.
    SocketFailed,
}

/// Decides what a request for a frame is answered. A frame that is passed over leaves the request
/// without an answer.
pub fn read_reply(read: SocketRead, fd_socket: bool) -> (r: Option<ReadReply>)
    ensures
        match read {
            SocketRead::Frame(f) => match r {
                Some(ReadReply::Frame(a)) => becomes(f, a@) && !(fd_socket && (f is Remote || f is Error)),
                Some(ReadReply::NotConverted(e)) => conversion_error(f) == Some(e) && !(fd_socket && (
                f is Remote || f is Error)),
                None => fd_socket && (f is Remote || f is Error),
                _ => false,
            },
            SocketRead::Idle => r == Some(ReadReply::Timeout),
            SocketRead::Failed => r == Some(ReadReply::SocketFailed),
        },
{
    match read {
        SocketRead::Frame(f) => match receive(f, fd_socket) {
            Received::Frame(a) => Some(ReadReply::Frame(a)),
            Received::Skip => None,
            Received::Failed(e) => Some(ReadReply::NotConverted(e)),
        },
        SocketRead::Idle => Some(ReadReply::Timeout),
        SocketRead::Failed => Some(ReadReply::SocketFailed),
    }
}

/// Whether `read` is what the other end of the bus reads of a data frame that was written.
pub open spec fn delivered(w: Written, read: BusRead) -> bool {
    &&& w is Data
    &&& read is Data
    &&& read->Data_data@ == w->Data_data
    &&& match w->Data_id {
        BusId::Standard(n) => read->Data_id == n && !read->is_extended,
        BusId::Extended(n) => read->Data_id == n && read->is_extended,
    }
}

/// A data frame whose identifier fits its format arrives at the other end of the bus as it was
/// sent.
pub proof fn bus_keeps_data_frames(f: Frame, fd_socket: bool, w: Written, read: BusRead, back: AnyFrame)
    requires
        f.wf(),
        !f.is_remote,
        !f.is_error,
        wire::id_fits(f.id, f.is_extended),
        written(AnyFrame::Can(f), fd_socket) == Ok::<Written, CanError>(w),
        delivered(w, read),
        becomes(read, back),
    ensures
        back == AnyFrame::Can(f),
{
}

/// The hardware type of CAN interfaces.
pub const ARPHRD_CAN: u64 = 280;

/// Whether the text of an interface's `type` file says that it is a CAN interface.
pub fn is_can_interface(type_text: &str) -> (r: bool)
    ensures
        r == (parsed(trim(type_text@), u32::MAX as int) == Some(280int)),
{
    let chars = chars_of(type_text);
    let text = string_of(trimmed(&chars));
    match parse_number(&text, u32::MAX as u64) {
        Some(n) => n == ARPHRD_CAN,
        None => false,
    }
}

/// Whether `read` is what the other end of the bus reads of an FD frame that was written.
pub open spec fn fd_delivered(w: Written, read: BusRead) -> bool {
    &&& w is Fd
    &&& read is Fd
    &&& read->Fd_data@ == w->Fd_data
    &&& read->Fd_flags == w->Fd_flags
    &&& match w->Fd_id {
        BusId::Standard(n) => read->Fd_id == n,
        BusId::Extended(n) => read->Fd_id == n,
    }
}

/// An FD frame whose format goes by its identifier arrives at the other end of the bus as it was sent,
/// with its flags.
pub proof fn bus_keeps_fd_frames(f: FdFrame, w: Written, read: BusRead, back: AnyFrame)
    requires
        f.wf(),
        f.is_extended == (f.id > 0x7FF),
        written(AnyFrame::CanFd(f), true) == Ok::<Written, CanError>(w),
        fd_delivered(w, read),
        becomes(read, back),
    ensures
        back == AnyFrame::CanFd(f),
{
}

/// A socket is given identifiers of 11 or of 29 bits and no longer ones. One that is no longer than its
/// format allows keeps its value, and an extended one is refused otherwise.
pub proof fn identifiers_fit_their_format(id: u32, is_extended: bool)
    ensures
        match bus_id_of(id, is_extended) {
            Ok(BusId::Standard(n)) => !is_extended && n < pow2(11) && (id < pow2(16) ==> n == id),
            Ok(BusId::Extended(n)) => is_extended && n < pow2(29) && n == id,
            Err(_) => id >= pow2(11) && (is_extended ==> id >= pow2(29)),
        },
{
    lemma2_to64();
}

/// A frame is written to a socket or refused, for a reason that lies in the identifier, or in the
/// socket where it takes no FD frames. What is written is what the frame holds.
pub proof fn frames_are_written_whole(frame: AnyFrame, fd_socket: bool)
    ensures
        match written(frame, fd_socket) {
            Ok(Written::Data { id, data }) => frame is Can && data == frame.data(),
            Ok(Written::Fd { id, data, flags }) => fd_socket && frame is CanFd && data == frame.data()
                && flags == frame->CanFd_0.flags,
            Err(CanError::FdUnsupported) => frame is CanFd && !fd_socket,
            Err(_) => frame.id() > 0x7FF,
        },
        frame is CanFd && !fd_socket ==> written(frame, fd_socket) is Err,
        frame is Can ==> written(frame, true) == written(frame, false),
{
}

} // verus!
