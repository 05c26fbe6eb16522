use si2mqtt::decode::{DecodeFailure, decode};
use si2mqtt::ppp_packet::{Header, Packet};
use si2mqtt::status::Status;

fn header_for_row(row: u8) -> Header {
    Header {
        begin: 0x7e,
        addr: 0xff,
        ctrl: 0x03,
        head: 0x4243,
        pad0: 0x01,
        mode: 0x0b,
        col: 0x01,
        row,
        pad1: 0,
    }
}

fn packet_for_row(row: u8, payload: &[u8]) -> Packet {
    Packet::new(header_for_row(row), payload.to_vec(), 0xdead)
}

#[test]
fn row1_engaged_when_status_bytes_match() {
    let mut status = Status::new();
    let r = decode(packet_for_row(1, &[0x03, 0, 0, 0, 0x00]), &mut status);
    assert_eq!(r, Ok(()));
    assert_eq!(status.genset_engaged.as_deref(), Some("1"));
}

#[test]
fn row1_not_engaged_on_sentinel_fifth_byte() {
    let mut status = Status::new();
    let r = decode(packet_for_row(1, &[0x03, 0, 0, 0, 0xa4]), &mut status);
    assert_eq!(r, Ok(()));
    assert_eq!(status.genset_engaged.as_deref(), Some("0"));
}

#[test]
fn row1_not_engaged_on_other_first_byte() {
    let mut status = Status::new();
    let r = decode(packet_for_row(1, &[0x02, 0, 0, 0, 0x00]), &mut status);
    assert_eq!(r, Ok(()));
    assert_eq!(status.genset_engaged.as_deref(), Some("0"));
}

#[test]
fn row1_short_payload_is_out_of_range_and_leaves_field_unset() {
    let mut status = Status::new();
    let r = decode(packet_for_row(1, &[0x03, 0, 0]), &mut status);
    assert_eq!(r, Err(DecodeFailure::OutOfRangePayload));
    assert_eq!(status.genset_engaged, None);
}

// Power 12.3 kW, charging marker, load -4.5 kW, both tail flags inactive.
#[test]
fn row2_decodes_power_flow_load_and_flags() {
    let mut status = Status::new();
    let r = decode(packet_for_row(2, b"12.3kW \x01 -4.5kW xx oo"), &mut status);
    assert_eq!(r, Ok(()));
    assert_eq!(status.genset_output.as_deref(), Some("12.3"));
    assert_eq!(status.flow.as_deref(), Some("charge"));
    assert_eq!(status.load.as_deref(), Some("-4.5"));
    assert_eq!(status.battery_fan.as_deref(), Some("0"));
    assert_eq!(status.genset_requested.as_deref(), Some("0"));
    assert_eq!(status.genset_engaged, None);
    assert_eq!(status.battery_charge, None);
}

#[test]
fn row2_discharge_marker_and_active_tails() {
    let mut status = Status::new();
    let r = decode(packet_for_row(2, b"0.0kW \x02  7.5kW . \x06\x06 rest"), &mut status);
    assert_eq!(r, Ok(()));
    assert_eq!(status.genset_output.as_deref(), Some("0.0"));
    assert_eq!(status.flow.as_deref(), Some("discharge"));
    assert_eq!(status.load.as_deref(), Some("7.5"));
    assert_eq!(status.battery_fan.as_deref(), Some("1"));
    assert_eq!(status.genset_requested.as_deref(), Some("1"));
}

#[test]
fn row2_mixed_tail_pair_sets_fan_only() {
    let mut status = Status::new();
    let r = decode(packet_for_row(2, b"1.0kW \x01 2.0kW z \x06o"), &mut status);
    assert_eq!(r, Ok(()));
    assert_eq!(status.battery_fan.as_deref(), Some("1"));
    assert_eq!(status.genset_requested.as_deref(), Some("0"));
}

#[test]
fn row2_grammar_mismatch_updates_nothing() {
    let mut status = Status::new();
    status.genset_output = Some("5.5".to_string());
    // Flow byte 0x03 is neither the charge nor the discharge marker.
    let r = decode(packet_for_row(2, b"12.3kW \x03 -4.5kW xx oo"), &mut status);
    assert_eq!(r, Err(DecodeFailure::PayloadGrammarMismatch));
    assert_eq!(status.genset_output.as_deref(), Some("5.5"));
    assert_eq!(status.flow, None);
    assert_eq!(status.load, None);
}

#[test]
fn row2_needs_a_gap_before_the_tail_pair() {
    let mut status = Status::new();
    // Nothing between the load's "kW" and the tail pair: no match.
    let r = decode(packet_for_row(2, b"12.3kW \x01 -4.5kWoo"), &mut status);
    assert_eq!(r, Err(DecodeFailure::PayloadGrammarMismatch));
    assert_eq!(status.genset_output, None);
}

// Stored output "0.0" plus the alert marker means the generator is off.
#[test]
fn row3_alert_marker_with_zero_output_clears_engaged() {
    let mut status = Status::new();
    status.genset_output = Some("0.0".to_string());
    let r = decode(packet_for_row(3, b"! low battery"), &mut status);
    assert_eq!(r, Ok(()));
    assert_eq!(status.genset_engaged.as_deref(), Some("0"));
}

#[test]
fn row3_other_markers_with_zero_output_keep_engaged() {
    for lead in [b"* running", b"? running"] {
        let mut status = Status::new();
        status.genset_output = Some("0.0".to_string());
        let r = decode(packet_for_row(3, lead), &mut status);
        assert_eq!(r, Ok(()));
        assert_eq!(status.genset_engaged.as_deref(), Some("1"));
    }
}

#[test]
fn row3_no_leading_marker_clears_engaged() {
    let mut status = Status::new();
    status.genset_output = Some("9.9".to_string());
    let r = decode(packet_for_row(3, b"  idle"), &mut status);
    assert_eq!(r, Ok(()));
    assert_eq!(status.genset_engaged.as_deref(), Some("0"));
}

#[test]
fn row3_alert_marker_with_nonzero_output_keeps_engaged() {
    let mut status = Status::new();
    status.genset_output = Some("3.2".to_string());
    let r = decode(packet_for_row(3, b"! charging"), &mut status);
    assert_eq!(r, Ok(()));
    assert_eq!(status.genset_engaged.as_deref(), Some("1"));
}

#[test]
fn row3_alert_marker_with_output_never_stored_keeps_engaged() {
    let mut status = Status::new();
    let r = decode(packet_for_row(3, b"!"), &mut status);
    assert_eq!(r, Ok(()));
    assert_eq!(status.genset_engaged.as_deref(), Some("1"));
}

#[test]
fn row3_empty_payload_clears_engaged() {
    let mut status = Status::new();
    let r = decode(packet_for_row(3, b""), &mut status);
    assert_eq!(r, Ok(()));
    assert_eq!(status.genset_engaged.as_deref(), Some("0"));
}

#[test]
fn row4_decodes_battery_charge() {
    let mut status = Status::new();
    let r = decode(packet_for_row(4, b"bat  42%  12:34:56"), &mut status);
    assert_eq!(r, Ok(()));
    assert_eq!(status.battery_charge.as_deref(), Some("42"));
}

#[test]
fn row4_charge_digits_are_read_as_a_number() {
    let mut status = Status::new();
    let r = decode(packet_for_row(4, b" 007% 00:00:01"), &mut status);
    assert_eq!(r, Ok(()));
    assert_eq!(status.battery_charge.as_deref(), Some("7"));
}

#[test]
fn row4_without_time_field_is_a_mismatch() {
    let mut status = Status::new();
    let r = decode(packet_for_row(4, b" 42% "), &mut status);
    assert_eq!(r, Err(DecodeFailure::PayloadGrammarMismatch));
    assert_eq!(status.battery_charge, None);
}

#[test]
fn row4_overlong_charge_number_is_out_of_range() {
    let mut status = Status::new();
    let r = decode(packet_for_row(4, b" 99999999999% 12:34:56"), &mut status);
    assert_eq!(r, Err(DecodeFailure::OutOfRangePayload));
    assert_eq!(status.battery_charge, None);
}

#[test]
fn unknown_rows_are_ignored_without_error() {
    let mut status = Status::new();
    let r = decode(packet_for_row(9, b"anything"), &mut status);
    assert_eq!(r, Ok(()));
    assert_eq!(status.genset_engaged, None);
    assert_eq!(status.battery_charge, None);
}

#[test]
fn snapshot_lists_present_keys_under_their_wire_names() {
    let mut status = Status::new();
    assert!(status.snapshot().is_empty());
    decode(packet_for_row(2, b"12.3kW \x01 -4.5kW xx oo"), &mut status).unwrap();
    decode(packet_for_row(4, b" 42% 12:34:56"), &mut status).unwrap();
    let snapshot = status.snapshot();
    let expected = vec![
        ("genset/requested".to_string(), "0".to_string()),
        ("genset/output".to_string(), "12.3".to_string()),
        ("flow".to_string(), "charge".to_string()),
        ("load".to_string(), "-4.5".to_string()),
        ("battery/fan".to_string(), "0".to_string()),
        ("battery/charge".to_string(), "42".to_string()),
    ];
    assert_eq!(snapshot, expected);
}

// Re-decoding the same frame against the same prior state yields the same
// resulting fields.
#[test]
fn decoding_is_deterministic_for_equal_inputs() {
    let mut first = Status::new();
    first.genset_output = Some("0.0".to_string());
    let mut second = Status::new();
    second.genset_output = Some("0.0".to_string());
    decode(packet_for_row(3, b"! alert"), &mut first).unwrap();
    decode(packet_for_row(3, b"! alert"), &mut second).unwrap();
    assert_eq!(first.genset_engaged, second.genset_engaged);
}
