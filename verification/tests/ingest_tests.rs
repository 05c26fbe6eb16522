use si2mqtt::decode::DecodeFailure;
use si2mqtt::ingest::ingest;
use si2mqtt::status::Status;

fn frame(row: u8, payload: &[u8]) -> Vec<u8> {
    let mut bytes = vec![0x7e, 0xff, 0x03, 0x42, 0x43, 0x01, 0x0b, 0x01, row, 0, 0, 0, 0];
    bytes.extend(payload);
    bytes.extend(&[0x00, 0xde, 0xad, 0x7e]);
    bytes
}

#[test]
fn one_chunk_updates_the_store() {
    let mut buffer = Vec::new();
    let mut status = Status::new();
    let failures = ingest(&mut buffer, &frame(2, b"12.3kW \x01 -4.5kW xx oo"), &mut status);
    assert!(failures.is_empty());
    assert_eq!(buffer.len(), 0);
    assert_eq!(status.genset_output.as_deref(), Some("12.3"));
    assert_eq!(status.flow.as_deref(), Some("charge"));
}

#[test]
fn a_frame_split_across_chunks_is_decoded_after_the_second() {
    let whole = frame(4, b" 88% 12:34:56");
    let (first, second) = whole.split_at(11);
    let mut buffer = Vec::new();
    let mut status = Status::new();
    let failures = ingest(&mut buffer, &first.to_vec(), &mut status);
    assert!(failures.is_empty());
    assert_eq!(buffer.len(), 11);
    assert_eq!(status.battery_charge, None);
    let failures = ingest(&mut buffer, &second.to_vec(), &mut status);
    assert!(failures.is_empty());
    assert_eq!(buffer.len(), 0);
    assert_eq!(status.battery_charge.as_deref(), Some("88"));
}

// A later frame's rule reads what an earlier frame of the same chunk stored:
// row 2 writes output 0.0, then row 3's alert marker reads it back.
#[test]
fn frames_of_one_chunk_are_decoded_in_stream_order() {
    let mut bytes = frame(2, b"0.0kW \x02 1.5kW x oo");
    bytes.extend(frame(3, b"! alarm"));
    let mut buffer = Vec::new();
    let mut status = Status::new();
    let failures = ingest(&mut buffer, &bytes, &mut status);
    assert!(failures.is_empty());
    assert_eq!(status.genset_output.as_deref(), Some("0.0"));
    assert_eq!(status.genset_engaged.as_deref(), Some("0"));
}

#[test]
fn failures_are_reported_in_order_and_do_not_stop_the_pipeline() {
    let mut bytes = frame(1, b"ab"); // too short for row 1
    bytes.extend(frame(2, b"no numbers here"));
    bytes.extend(frame(4, b" 55% 01:02:03"));
    let mut buffer = Vec::new();
    let mut status = Status::new();
    let failures = ingest(&mut buffer, &bytes, &mut status);
    assert_eq!(
        failures,
        vec![DecodeFailure::OutOfRangePayload, DecodeFailure::PayloadGrammarMismatch]
    );
    assert_eq!(status.battery_charge.as_deref(), Some("55"));
}
