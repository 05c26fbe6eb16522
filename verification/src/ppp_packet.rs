//! The frame data model: fixed-width header and extracted packet.
//!
//! Wire layout, big-endian multi-byte fields:
//! `0x7E | 0xFF | control(1) | head(2) | pad0(1) | mode(1) | column(1) |
//! row(1) | pad1(4) | payload | 0x00 | checksum(2) | 0x7E`.
//! Only `mode` (`0x0B` marks a display update) and `row` (selects the decode
//! rule) are consumed downstream; the remaining header fields are carried
//! structurally.

use vstd::prelude::*;

verus! {

/// Width of the fixed header, start marker included.
pub const HEADER_LEN: usize = 13;

/// First byte of the start marker, and the end marker byte.
pub const MARKER_BEGIN: u8 = 0x7e;

/// Second byte of the start marker.
pub const MARKER_ADDR: u8 = 0xff;

/// The `mode` value of a display-update frame.
pub const MODE_DISPLAY: u8 = 0x0b;

/// The fixed-width frame header, one field per wire field.
#[derive(Clone, Copy, Debug)]
pub struct Header {
    pub begin: u8,
    pub addr: u8,
    pub ctrl: u8,
    pub head: u16,
    pub pad0: u8,
    pub mode: u8,
    pub col: u8,
    pub row: u8,
    pub pad1: u32,
}

impl Header {
    /// Extract the header fields from `b[off..off + HEADER_LEN)`,
    /// bounds-checked, multi-byte fields read big-endian.
    pub fn from_bytes(b: &Vec<u8>, off: usize) -> (h: Header)
        requires
            off + HEADER_LEN <= b@.len(),
        ensures
            h.begin == b@[off as int],
            h.addr == b@[off + 1],
            h.ctrl == b@[off + 2],
            h.head == b@[off + 3] * 256 + b@[off + 4],
            h.pad0 == b@[off + 5],
            h.mode == b@[off + 6],
            h.col == b@[off + 7],
            h.row == b@[off + 8],
            h.pad1 == ((b@[off + 9] * 0x1000000) as u32) + ((b@[off + 10] * 0x10000) as u32) + ((
            b@[off + 11] * 0x100) as u32) + b@[off + 12],
    {
        // Binding the length as a usize bounds `off + 12` for the reads below.
        let _n: usize = b.len();
        Header {
            begin: b[off],
            addr: b[off + 1],
            ctrl: b[off + 2],
            head: (b[off + 3] as u16) * 256 + (b[off + 4] as u16),
            pad0: b[off + 5],
            mode: b[off + 6],
            col: b[off + 7],
            row: b[off + 8],
            pad1: (b[off + 9] as u32) * 0x1000000 + (b[off + 10] as u32) * 0x10000 + (b[off + 11]
                as u32) * 0x100 + (b[off + 12] as u32),
        }
    }
}

/// The abstract value of an extracted frame: exactly the fields the
/// payload decoder consumes.
pub struct PacketModel {
    pub mode: u8,
    pub row: u8,
    pub payload: Seq<u8>,
    pub checksum: u16,
}

/// One complete frame extracted from the stream.
#[derive(Debug)]
pub struct Packet {
    pub header: Header,
    pub payload: Vec<u8>,
    pub _checksum: u16,
}

impl View for Packet {
    type V = PacketModel;

    open spec fn view(&self) -> PacketModel {
        PacketModel {
            mode: self.header.mode,
            row: self.header.row,
            payload: self.payload@,
            checksum: self._checksum,
        }
    }
}

impl Packet {
    /// Assemble a packet from its decoded parts.
    pub fn new(header: Header, payload: Vec<u8>, checksum: u16) -> (p: Packet)
        ensures
            p@ == (PacketModel {
                mode: header.mode,
                row: header.row,
                payload: payload@,
                checksum,
            }),
    {
        Packet { header, payload, _checksum: checksum }
    }
}

} // verus!
