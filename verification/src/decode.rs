//! The payload decoder: row-indexed decode rules over the status store.
//!
//! [`decode`] dispatches on a frame's `row` and merges the decoded fields
//! into the store.  [`decode_step`] and [`decode_result`] are the complete
//! specification: the store after a decode, and when a decode reports a
//! failure.  Row 3 is the one rule that reads the store (the stored
//! generator output) rather than frame bytes alone.
//!
//! Truncated frames and frames of a foreign mode never reach the decoder:
//! the scanner retains the former and silently consumes the latter.  The
//! failures here are per-frame and recoverable: the frame is dropped and
//! its row's fields stay unchanged.

use vstd::prelude::*;

use crate::payload::{FLOW_CHARGE, TAIL_ACTIVE, match_row2, match_row4, row2_parse, row4_parse};
use crate::ppp_packet::{Packet, PacketModel};
use crate::status::{Status, StatusModel};
use crate::text::{dec_str, digits_val, u32_to_string, value_str};

verus! {

/// Row-3 marker meaning an alert: `'!'`.
pub const MARKER_ALERT: u8 = 0x21;

/// Row-3 marker: `'*'`.
pub const MARKER_STAR: u8 = 0x2a;

/// Row-3 marker: `'?'`.
pub const MARKER_QUERY: u8 = 0x3f;

/// Why a frame's payload produced no update.
#[derive(Clone, Copy, Debug, PartialEq, Eq, Structural)]
pub enum DecodeFailure {
    /// The payload does not match the grammar of its row.
    PayloadGrammarMismatch,
    /// The payload is too short, or a captured value does not fit.
    OutOfRangePayload,
}

/// `"1"` for a set flag, `"0"` for a clear one.
pub open spec fn bool_str(b: bool) -> Seq<char> {
    if b {
        "1"@
    } else {
        "0"@
    }
}

/// The flow text for a flow byte.
pub open spec fn flow_str(f: u8) -> Seq<char> {
    if f == FLOW_CHARGE {
        "charge"@
    } else {
        "discharge"@
    }
}

/// Row 1: the generator is engaged exactly when the first payload byte is
/// `0x03` and the fifth is not `0xA4`.
pub open spec fn row1_engaged(p: Seq<u8>) -> bool {
    p[0] == 0x03 && p[4] != 0xa4
}

/// A byte that can mark an engaged generator at the head of a row-3 payload.
pub open spec fn is_row3_marker(b: u8) -> bool {
    b == MARKER_STAR || b == MARKER_ALERT || b == MARKER_QUERY
}

/// Row 3: engaged exactly when the payload leads with a marker, unless the
/// marker is the alert and the stored generator output reads zero.  An
/// output never stored counts as non-zero.
pub open spec fn row3_engaged(p: Seq<u8>, output: Option<Seq<char>>) -> bool {
    &&& p.len() > 0
    &&& is_row3_marker(p[0])
    &&& !(p[0] == MARKER_ALERT && output == Some("0.0"@))
}

/// The store after decoding one frame against it.  Every rule replaces
/// whole values under its keys and leaves all other keys unchanged; a
/// failed decode leaves the store as it was.
pub open spec fn decode_step(sv: StatusModel, f: PacketModel) -> StatusModel {
    if f.row == 1 {
        if f.payload.len() >= 5 {
            StatusModel { genset_engaged: Some(bool_str(row1_engaged(f.payload))), ..sv }
        } else {
            sv
        }
    } else if f.row == 2 {
        match row2_parse(f.payload) {
            Some(parts) => StatusModel {
                genset_output: Some(value_str(parts.power)),
                flow: Some(flow_str(parts.flow)),
                load: Some(value_str(parts.load)),
                battery_fan: Some(bool_str(parts.tail1 == TAIL_ACTIVE)),
                genset_requested: Some(bool_str(parts.tail2 == TAIL_ACTIVE)),
                ..sv
            },
            None => sv,
        }
    } else if f.row == 3 {
        StatusModel { genset_engaged: Some(bool_str(row3_engaged(f.payload, sv.genset_output))), ..sv }
    } else if f.row == 4 {
        match row4_parse(f.payload) {
            Some((a, b)) => if digits_val(f.payload, a, b) <= u32::MAX {
                StatusModel { battery_charge: Some(dec_str(digits_val(f.payload, a, b))), ..sv }
            } else {
                sv
            },
            None => sv,
        }
    } else {
        sv
    }
}

/// Whether decoding one frame succeeds, and with which failure otherwise.
pub open spec fn decode_result(f: PacketModel) -> Result<(), DecodeFailure> {
    if f.row == 1 {
        if f.payload.len() >= 5 {
            Ok(())
        } else {
            Err(DecodeFailure::OutOfRangePayload)
        }
    } else if f.row == 2 {
        if row2_parse(f.payload) is Some {
            Ok(())
        } else {
            Err(DecodeFailure::PayloadGrammarMismatch)
        }
    } else if f.row == 3 {
        Ok(())
    } else if f.row == 4 {
        match row4_parse(f.payload) {
            Some((a, b)) => if digits_val(f.payload, a, b) <= u32::MAX {
                Ok(())
            } else {
                Err(DecodeFailure::OutOfRangePayload)
            },
            None => Err(DecodeFailure::PayloadGrammarMismatch),
        }
    } else {
        Ok(())
    }
}

/// `"1"`/`"0"` as a fresh string.
fn bool_string(b: bool) -> (s: String)
    ensures
        s@ == bool_str(b),
{
    if b {
        String::from_str("1")
    } else {
        String::from_str("0")
    }
}

/// Decode one frame and merge its fields into the store.
///
/// The store afterwards is exactly `decode_step(old store, frame)`, and
/// the result exactly `decode_result(frame)`: a failure leaves every key
/// untouched, success replaces whole values under the row's keys only.
pub fn decode(packet: Packet, status: &mut Status) -> (r: Result<(), DecodeFailure>)
    ensures
        final(status)@ == decode_step(old(status)@, packet@),
        r == decode_result(packet@),
{
    let row = packet.header.row;
    if row == 1 {
        if packet.payload.len() >= 5 {
            let engaged = packet.payload[0] == 0x03 && packet.payload[4] != 0xa4;
            status.genset_engaged = Some(bool_string(engaged));
            Ok(())
        } else {
            Err(DecodeFailure::OutOfRangePayload)
        }
    } else if row == 2 {
        match match_row2(&packet.payload) {
            Some(m) => {
                status.genset_output = Some(
                    crate::text::span_string(&packet.payload, 0, m.power_end),
                );
                status.flow = Some(
                    if m.flow == FLOW_CHARGE {
                        String::from_str("charge")
                    } else {
                        String::from_str("discharge")
                    },
                );
                status.load = Some(
                    crate::text::span_string(&packet.payload, m.load_start, m.load_end),
                );
                status.battery_fan = Some(bool_string(m.tail1 == TAIL_ACTIVE));
                status.genset_requested = Some(bool_string(m.tail2 == TAIL_ACTIVE));
                Ok(())
            },
            None => Err(DecodeFailure::PayloadGrammarMismatch),
        }
    } else if row == 3 {
        let engaged: bool = if packet.payload.len() > 0 && (packet.payload[0] == MARKER_STAR
            || packet.payload[0] == MARKER_ALERT || packet.payload[0] == MARKER_QUERY) {
            if packet.payload[0] == MARKER_ALERT {
                match &status.genset_output {
                    Some(out) => !(*out == String::from_str("0.0")),
                    None => true,
                }
            } else {
                true
            }
        } else {
            false
        };
        status.genset_engaged = Some(bool_string(engaged));
        Ok(())
    } else if row == 4 {
        match match_row4(&packet.payload) {
            Some((a, b)) => {
                match crate::text::parse_u32_digits(&packet.payload, a, b) {
                    Some(v) => {
                        status.battery_charge = Some(u32_to_string(v));
                        Ok(())
                    },
                    None => Err(DecodeFailure::OutOfRangePayload),
                }
            },
            None => Err(DecodeFailure::PayloadGrammarMismatch),
        }
    } else {
        Ok(())
    }
}

} // verus!
