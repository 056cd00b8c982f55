//! Network frame encoding using standard Linux `struct canfd_frame` layout.
//!
//! ```text
//! struct canfd_frame {        // 72 bytes total, fixed size
//!     u32 can_id;             // CAN ID + flags (LE). Bit 31=EFF, 30=RTR, 29=ERR
//!     u8  len;                // payload length (0-64)
//!     u8  flags;              // CANFD_BRS=0x01, CANFD_ESI=0x02
//!     u8  __res0;             // reserved
//!     u8  __res1;             // reserved
//!     u8  data[64];           // payload, zero-padded
//! };
//! ```

use super::{AnyCanFrame, AnyFrame, CanError, CanFdFlags, CanFdFrame, CanFrame, FdFrame, Frame};
use crate::endian::{get_le32, le32, le32_at, le32_read, put_bytes, put_le32, put_zeros};
use vstd::prelude::*;

verus! {

/// Fixed size of a canfd_frame (matches Linux struct canfd_frame).
pub const FRAME_SIZE: usize = 72;

/// Extended frame format.
pub const CAN_EFF_FLAG: u32 = 0x80000000;

/// Remote transmission request.
pub const CAN_RTR_FLAG: u32 = 0x40000000;

/// 29-bit extended ID mask.
pub const CAN_EFF_MASK: u32 = 0x1FFFFFFF;

/// 11-bit standard ID mask.
pub const CAN_SFF_MASK: u32 = 0x000007FF;

/// Bit rate switch.
pub const CANFD_BRS: u8 = 0x01;

/// Error state indicator.
pub const CANFD_ESI: u8 = 0x02;

/// The can_id field of a frame: its identifier with the flag bits set.
pub open spec fn id_word(id: u32, is_extended: bool, is_remote: bool) -> u32 {
    let word = if is_extended {
        id | CAN_EFF_FLAG
    } else {
        id
    };
    if is_remote {
        word | CAN_RTR_FLAG
    } else {
        word
    }
}

/// The flags field of an FD frame.
pub open spec fn flag_byte(flags: CanFdFlags) -> u8 {
    if flags.brs && flags.esi {
        3
    } else if flags.esi {
        CANFD_ESI
    } else if flags.brs {
        CANFD_BRS
    } else {
        0
    }
}

/// The bytes of a canfd_frame.
pub open spec fn frame_bytes(word: u32, flags: u8, data: Seq<u8>) -> Seq<u8> {
    le32(word as int) + seq![data.len() as u8, flags, 0u8, 0u8] + data + Seq::new(
        (64 - data.len()) as nat,
        |i: int| 0u8,
    )
}

/// A frame as it travels over the network.
pub open spec fn encoded(f: AnyFrame) -> Seq<u8> {
    match f {
        AnyFrame::Can(f) => frame_bytes(id_word(f.id, f.is_extended, f.is_remote), 0, f.data),
        AnyFrame::CanFd(f) => frame_bytes(
            id_word(f.id, f.is_extended, false),
            flag_byte(f.flags),
            f.data,
        ),
    }
}

/// The frame that a sequence of at least 72 bytes begins with: an FD frame where flags are set
/// or more than 8 bytes are stated, a standard frame otherwise.
pub open spec fn decoded(s: Seq<u8>) -> AnyFrame {
    let word = le32_at(s, 0) as u32;
    let len = if s[4] <= 64 {
        s[4] as int
    } else {
        64
    };
    let flags = s[5];
    let is_extended = word & CAN_EFF_FLAG != 0;
    let id = if is_extended {
        word & CAN_EFF_MASK
    } else {
        word & CAN_SFF_MASK
    };
    if flags != 0 || len > 8 {
        AnyFrame::CanFd(
            FdFrame {
                id,
                data: s.subrange(8, 8 + len),
                is_extended,
                flags: CanFdFlags { brs: flags % 2 == 1, esi: flags / 2 % 2 == 1 },
            },
        )
    } else if word & CAN_RTR_FLAG != 0 {
        AnyFrame::Can(
            Frame {
                id,
                data: Seq::new(len as nat, |i: int| 0u8),
                is_extended,
                is_remote: true,
                is_error: false,
            },
        )
    } else {
        AnyFrame::Can(
            Frame {
                id,
                data: s.subrange(8, 8 + len),
                is_extended,
                is_remote: false,
                is_error: false,
            },
        )
    }
}

/// Encode a CAN frame as a 72-byte canfd_frame.
pub fn encode(frame: &AnyCanFrame) -> (r: Vec<u8>)
    ensures
        r@ == encoded(frame@),
        r@.len() == FRAME_SIZE,
{
    let mut buf: Vec<u8> = Vec::new();
    let data = frame.data();
    let (word, flags): (u32, u8) = match frame {
        AnyCanFrame::Can(f) => {
            let mut id: u32 = f.id();
            if f.is_extended() {
                id = id | CAN_EFF_FLAG;
            }
            if f.is_remote() {
                id = id | CAN_RTR_FLAG;
            }
            (id, 0)
        },
        AnyCanFrame::CanFd(f) => {
            let mut id: u32 = f.id();
            if f.is_extended() {
                id = id | CAN_EFF_FLAG;
            }
            let fd = f.flags();
            let brs: u8 = if fd.brs {
                CANFD_BRS
            } else {
                0
            };
            let esi: u8 = if fd.esi {
                CANFD_ESI
            } else {
                0
            };
            (id, brs + esi)
        },
    };
    put_le32(&mut buf, word);
    let ghost head = buf@;
    buf.push(data.len() as u8);
    buf.push(flags);
    buf.push(0);
    buf.push(0);
    assert(buf@ =~= le32(word as int) + seq![data@.len() as u8, flags, 0u8, 0u8]);
    put_bytes(&mut buf, data);
    put_zeros(&mut buf, 64 - data.len());
    assert(buf@ =~= frame_bytes(word, flags, data@));
    buf
}

/// Decode a canfd_frame from network data.
///
/// Returns the decoded frame and the number of bytes consumed (always FRAME_SIZE).
pub fn decode(data: &[u8]) -> (r: Result<(AnyCanFrame, usize), CanError>)
    ensures
        match r {
            Ok((frame, consumed)) => data@.len() >= FRAME_SIZE && consumed == FRAME_SIZE && frame@
                == decoded(data@),
            Err(e) => data@.len() < FRAME_SIZE && e == (CanError::ShortBuffer {
                got: data@.len() as usize,
            }),
        },
{
    if data.len() < FRAME_SIZE {
        return Err(CanError::ShortBuffer { got: data.len() });
    }
    let word: u32 = get_le32(data, 0);
    let len: usize = if data[4] <= 64 {
        data[4] as usize
    } else {
        64
    };
    let flags: u8 = data[5];
    let is_extended = word & CAN_EFF_FLAG != 0;
    let is_rtr = word & CAN_RTR_FLAG != 0;
    let can_id: u32 = if is_extended {
        word & CAN_EFF_MASK
    } else {
        word & CAN_SFF_MASK
    };
    let payload = vstd::slice::slice_subrange(data, 8, 8 + len);
    let frame = if flags != 0 || len > 8 {
        let fd_flags = CanFdFlags { brs: flags % 2 == 1, esi: flags / 2 % 2 == 1 };
        match CanFdFrame::new_with_flags(can_id, payload, fd_flags) {
            Ok(f) => AnyCanFrame::CanFd(f.with_format(is_extended)),
            Err(e) => return Err(e),
        }
    } else if is_rtr {
        match CanFrame::new_remote(can_id, len as u8) {
            Ok(f) => AnyCanFrame::Can(f.with_format(is_extended)),
            Err(e) => return Err(e),
        }
    } else {
        match CanFrame::new(can_id, payload) {
            Ok(f) => AnyCanFrame::Can(f.with_format(is_extended)),
            Err(e) => return Err(e),
        }
    };
    Ok((frame, FRAME_SIZE))
}

/// Get the expected size of an encoded frame (always FRAME_SIZE).
pub fn encoded_size(_header: &[u8]) -> (r: Result<usize, CanError>)
    ensures
        r == Ok::<usize, CanError>(FRAME_SIZE),
{
    Ok(FRAME_SIZE)
}

/// Whether the identifier fits the frame's format.
pub open spec fn id_fits(id: u32, is_extended: bool) -> bool {
    id <= (if is_extended {
        CAN_EFF_MASK
    } else {
        CAN_SFF_MASK
    })
}

/// Whether a frame keeps all that it holds on its way through the network: its identifier fits
/// its format, it is no error frame, a remote frame states its length and no data, and an FD
/// frame has a flag set or more data than a standard frame can hold.
pub open spec fn travels(f: AnyFrame) -> bool {
    &&& f.wf()
    &&& match f {
        AnyFrame::Can(f) => {
            &&& id_fits(f.id, f.is_extended)
            &&& !f.is_error
            &&& f.is_remote ==> f.data == Seq::new(f.data.len(), |i: int| 0u8)
        },
        AnyFrame::CanFd(f) => {
            &&& id_fits(f.id, f.is_extended)
            &&& f.flags.brs || f.flags.esi || f.data.len() > 8
        },
    }
}

proof fn id_word_reads_back(id: u32, is_extended: bool, is_remote: bool)
    requires
        id_fits(id, is_extended),
    ensures
        ({
            let word = id_word(id, is_extended, is_remote);
            &&& (word & CAN_EFF_FLAG != 0) == is_extended
            &&& (word & CAN_RTR_FLAG != 0) == is_remote
            &&& is_extended ==> word & CAN_EFF_MASK == id
            &&& !is_extended ==> word & CAN_SFF_MASK == id
        }),
{
    assert(id <= 0x1FFFFFFF ==> ({
        let e = id | 0x80000000;
        let r = id | 0x40000000;
        let b = e | 0x40000000;
        &&& id & 0x80000000 == 0 && id & 0x40000000 == 0 && id & 0x1FFFFFFF == id
        &&& e & 0x80000000 != 0 && e & 0x40000000 == 0 && e & 0x1FFFFFFF == id
        &&& r & 0x80000000 == 0 && r & 0x40000000 != 0 && r & 0x1FFFFFFF == id
        &&& b & 0x80000000 != 0 && b & 0x40000000 != 0 && b & 0x1FFFFFFF == id
    })) by (bit_vector);
    assert(id <= 0x7FF ==> id & 0x7FF == id && (id | 0x40000000) & 0x7FF == id) by (bit_vector);
}

proof fn frame_bytes_hold(word: u32, flags: u8, data: Seq<u8>, rest: Seq<u8>)
    requires
        data.len() <= 64,
    ensures
        ({
            let s = frame_bytes(word, flags, data) + rest;
            &&& frame_bytes(word, flags, data).len() == FRAME_SIZE
            &&& le32_at(s, 0) == word
            &&& s[4] == data.len()
            &&& s[5] == flags
            &&& s.subrange(8, 8 + data.len() as int) == data
        }),
{
    let s = frame_bytes(word, flags, data) + rest;
    let head = le32(word as int) + seq![data.len() as u8, flags, 0u8, 0u8];
    assert(head.len() == 8);
    assert(forall|i: int| 0 <= i < 8 ==> s[i] == head[i]);
    assert(s.subrange(0, 4) =~= le32(word as int));
    le32_read(s, 0, word as int);
    assert(s.subrange(8, 8 + data.len() as int) =~= data);
}

proof fn id_word_adds_flags(id: u32, is_extended: bool, is_remote: bool)
    requires
        id <= CAN_EFF_MASK,
    ensures
        id_word(id, is_extended, is_remote) == id + (if is_extended {
            0x8000_0000int
        } else {
            0
        }) + (if is_remote {
            0x4000_0000int
        } else {
            0
        }),
{
    assert(id <= 0x1FFFFFFF ==> (id | 0x80000000) == id + 0x80000000 && (id | 0x40000000) == id + 0x40000000 && ((
    id | 0x80000000) | 0x40000000) == id + 0xC0000000) by (bit_vector);
}

/// An encoded frame is laid out as Linux has it: the identifier in the low 29 bits of a 32-bit
/// little-endian word whose top bit says that it is extended and whose next one that the frame is
/// remote, then the length of the data, the FD flags (1 for a bit rate switch, 2 for the error
/// state), two zeros, the data, and zeros.
pub proof fn encoded_frame_is_laid_out(f: AnyFrame)
    requires
        f.wf(),
        f.id() <= CAN_EFF_MASK,
    ensures
        ({
            let s = encoded(f);
            let word = le32_at(s, 0);
            let (extended, remote, flags) = match f {
                AnyFrame::Can(c) => (c.is_extended, c.is_remote, 0int),
                AnyFrame::CanFd(c) => (
                    c.is_extended,
                    false,
                    (if c.flags.brs {
                        1int
                    } else {
                        0
                    }) + (if c.flags.esi {
                        2int
                    } else {
                        0
                    }),
                ),
            };
            let n = f.data().len() as int;
            &&& s.len() == 72
            &&& word % 0x2000_0000 == f.id()
            &&& word / 0x8000_0000 == 1 <==> extended
            &&& word / 0x4000_0000 % 2 == 1 <==> remote
            &&& s[4] == n
            &&& s[5] == flags
            &&& s[6] == 0 && s[7] == 0
            &&& s.subrange(8, 8 + n) == f.data()
            &&& s.skip(8 + n) == Seq::new((64 - n) as nat, |i: int| 0u8)
        }),
{
    let (extended, remote, flags) = match f {
        AnyFrame::Can(c) => (c.is_extended, c.is_remote, 0u8),
        AnyFrame::CanFd(c) => (c.is_extended, false, flag_byte(c.flags)),
    };
    let word = id_word(f.id(), extended, remote);
    let n = f.data().len() as int;
    let s = frame_bytes(word, flags, f.data());
    id_word_adds_flags(f.id(), extended, remote);
    frame_bytes_hold(word, flags, f.data(), Seq::empty());
    assert(s + Seq::<u8>::empty() =~= s);
    assert(s[6] == 0 && s[7] == 0);
    assert(s.skip(8 + n) =~= Seq::new((64 - n) as nat, |i: int| 0u8));
}

/// An encoded frame takes 72 bytes.
pub proof fn encoded_len(f: AnyFrame)
    requires
        f.wf(),
    ensures
        encoded(f).len() == FRAME_SIZE,
{
}

/// Decoding an encoded frame gives the frame back, whatever follows it.
pub proof fn decodes_what_was_encoded(f: AnyFrame, rest: Seq<u8>)
    requires
        travels(f),
    ensures
        decoded(encoded(f) + rest) == f,
{
    match f {
        AnyFrame::Can(c) => {
            id_word_reads_back(c.id, c.is_extended, c.is_remote);
            frame_bytes_hold(id_word(c.id, c.is_extended, c.is_remote), 0, c.data, rest);
        },
        AnyFrame::CanFd(c) => {
            id_word_reads_back(c.id, c.is_extended, false);
            frame_bytes_hold(
                id_word(c.id, c.is_extended, false),
                flag_byte(c.flags),
                c.data,
                rest,
            );
        },
    }
}

/// A standard frame that came from the network can be sent on without loss.
pub proof fn decoded_standard_frames_travel(s: Seq<u8>)
    requires
        s.len() >= FRAME_SIZE,
        decoded(s) is Can,
    ensures
        travels(decoded(s)),
{
    let word = le32_at(s, 0) as u32;
    assert(word & 0x1FFFFFFF <= 0x1FFFFFFF && word & 0x7FF <= 0x7FF) by (bit_vector);
}

proof fn word_in_parts(word: u32)
    ensures
        word & CAN_EFF_FLAG != 0 <==> word >= 0x8000_0000,
        word & CAN_RTR_FLAG != 0 <==> word / 0x4000_0000 % 2 == 1,
        word & CAN_EFF_MASK == word % 0x2000_0000,
        word & CAN_SFF_MASK == word % 0x800,
{
    assert(word & 0x80000000 != 0 <==> word >= 0x8000_0000) by (bit_vector);
    assert(word & 0x40000000 != 0 <==> word / 0x4000_0000 % 2 == 1) by (bit_vector);
    assert(word & 0x1FFFFFFF == word % 0x2000_0000) by (bit_vector);
    assert(word & 0x000007FF == word % 0x800) by (bit_vector);
}

/// Whatever comes from the network is read by its places: the top bit of the first word says whether the
/// identifier has 29 or 11 bits, the next one whether a standard frame is remote, the length is cut
/// to 64, and flags, or more than 8 bytes, make an FD frame.
pub proof fn decoded_frame_is_read_by_its_places(s: Seq<u8>)
    requires
        s.len() >= FRAME_SIZE,
    ensures
        ({
            let word = le32_at(s, 0);
            let len: int = if s[4] < 64 {
                s[4] as int
            } else {
                64
            };
            let f = decoded(s);
            let extended = match f {
                AnyFrame::Can(c) => c.is_extended,
                AnyFrame::CanFd(c) => c.is_extended,
            };
            &&& f.data().len() == len
            &&& f is CanFd <==> s[5] != 0 || len > 8
            &&& extended <==> word >= 0x8000_0000
            &&& f.id() == (if extended {
                word % 0x2000_0000
            } else {
                word % 0x800
            })
            &&& f matches AnyFrame::Can(c) ==> (c.is_remote <==> word / 0x4000_0000 % 2 == 1)
            &&& f matches AnyFrame::CanFd(c) ==> (c.flags.brs <==> s[5] % 2 == 1) && (c.flags.esi
                <==> s[5] / 2 % 2 == 1)
            &&& !(f is Can && f->Can_0.is_remote) ==> f.data() == s.subrange(8, 8 + len)
        }),
{
    assert(0 <= le32_at(s, 0) < 0x1_0000_0000);
    word_in_parts(le32_at(s, 0) as u32);
}


} // verus!
