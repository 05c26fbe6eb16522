use si2mqtt::parse::parse;

fn simple_packet() -> Vec<u8> {
    vec![
        0x7e, // begin
        0xff, // addr
        0x03, // ctrl
        0x42, 0x43, // head
        0x01, // pad0
        0x0b, // mode
        0x01, // col
        0x01, // row
        0x00, 0x00, 0x00, 0x00, // pad1
        0x00, // payload terminator (empty payload)
        0xde, 0xad, // checksum
        0x7e, // end
    ]
}

fn check(buffer: &mut Vec<u8>, output_packets: usize, unconsumed_bytes: usize) {
    let packets = parse(buffer);
    assert_eq!(packets.len(), output_packets);
    assert_eq!(buffer.len(), unconsumed_bytes);
}

#[test]
fn empty_buffer_yields_no_packets_old() {
    let mut buffer = Vec::<u8>::new();
    check(&mut buffer, 0, 0);
}

#[test]
fn empty_buffer_yields_no_packets_new() {
    let mut buffer = Vec::<u8>::new();
    check(&mut buffer, 0, 0);
}

#[test]
fn payloadless_packet_parses_correctly_old() {
    let mut buffer: Vec<u8> = simple_packet();
    check(&mut buffer, 1, 0);
}

#[test]
fn payloadless_packet_parses_correctly_new() {
    let mut buffer: Vec<u8> = simple_packet();
    check(&mut buffer, 1, 0);
}

#[test]
fn packet_missing_first_bytes_handled_correctly_old() {
    let mut buffer: Vec<u8> = simple_packet()[2..].to_vec();
    let blen = buffer.len();
    check(&mut buffer, 0, blen);
}

#[test]
fn packet_missing_first_bytes_handled_correctly_new() {
    let mut buffer: Vec<u8> = simple_packet()[2..].to_vec();
    let blen = buffer.len();
    check(&mut buffer, 0, blen);
}

#[test]
fn packet_not_complete_handled_correctly_old() {
    let mut buffer: Vec<u8> = simple_packet()[..7].to_vec();
    let blen = buffer.len();
    check(&mut buffer, 0, blen)
}

#[test]
fn packet_not_complete_handled_correctly_new() {
    let mut buffer: Vec<u8> = simple_packet()[..7].to_vec();
    let blen = buffer.len();
    check(&mut buffer, 0, blen)
}

#[test]
fn bytes_before_packet_get_dropped_old() {
    let mut buffer: Vec<u8> = [0, 0, 0, 0].to_vec();
    buffer.extend(simple_packet());
    check(&mut buffer, 1, 0);
}

#[test]
fn bytes_before_packet_get_dropped_new() {
    let mut buffer: Vec<u8> = [0, 0, 0, 0].to_vec();
    buffer.extend(simple_packet());
    check(&mut buffer, 1, 0);
}

#[test]
fn non_0x0b_mode_packets_are_dropped_old() {
    let mut buffer: Vec<u8> = simple_packet();
    buffer[6] = 0x0c;
    check(&mut buffer, 0, 0);
}

#[test]
fn non_0x0b_mode_packets_are_dropped_new() {
    let mut buffer: Vec<u8> = simple_packet();
    buffer[6] = 0x0c;
    check(&mut buffer, 0, 0);
}

#[test]
fn payloadless_packet_fields_are_extracted() {
    let mut buffer: Vec<u8> = simple_packet();
    let packets = parse(&mut buffer);
    assert_eq!(packets.len(), 1);
    assert_eq!(packets[0].header.mode, 0x0b);
    assert_eq!(packets[0].header.row, 1);
    assert_eq!(packets[0].header.begin, 0x7e);
    assert_eq!(packets[0].header.addr, 0xff);
    assert_eq!(packets[0].header.head, 0x4243);
    assert_eq!(packets[0].payload.len(), 0);
    assert_eq!(packets[0]._checksum, 0xdead);
}

#[test]
fn payload_bytes_are_extracted_verbatim() {
    let mut buffer: Vec<u8> = vec![
        0x7e, 0xff, 0x03, 0x42, 0x43, 0x01, 0x0b, 0x01, 0x02, 0x00, 0x00, 0x00, 0x00,
    ];
    buffer.extend(b"hello");
    buffer.extend(&[0x00, 0x12, 0x34, 0x7e]);
    let packets = parse(&mut buffer);
    assert_eq!(packets.len(), 1);
    assert_eq!(packets[0].header.row, 2);
    assert_eq!(packets[0].payload, b"hello".to_vec());
    assert_eq!(packets[0]._checksum, 0x1234);
    assert_eq!(buffer.len(), 0);
}

#[test]
fn two_packets_in_one_chunk_come_out_in_order() {
    let mut buffer: Vec<u8> = simple_packet();
    let mut second = simple_packet();
    second[8] = 0x03; // row of the second frame
    buffer.extend(second);
    let packets = parse(&mut buffer);
    assert_eq!(packets.len(), 2);
    assert_eq!(packets[0].header.row, 1);
    assert_eq!(packets[1].header.row, 3);
    assert_eq!(buffer.len(), 0);
}

// Byte accounting: frames reported plus bytes retained never exceed the
// bytes that were present.
#[test]
fn consumed_and_retained_bytes_never_exceed_input() {
    let mut buffer: Vec<u8> = vec![0x51, 0x52, 0x7e, 0x11];
    buffer.extend(simple_packet());
    buffer.extend(&[0x7e, 0xff, 0x03]); // incomplete frame at the tail
    let before = buffer.len();
    let packets = parse(&mut buffer);
    let consumed: usize = packets.iter().map(|p| 17 + p.payload.len()).sum();
    assert!(consumed + buffer.len() <= before);
    assert_eq!(packets.len(), 1);
    assert_eq!(buffer.len(), 3);
}

// Idempotence: rescanning the retained buffer with no new data yields no
// frames and leaves the retained length unchanged.
#[test]
fn rescanning_without_new_data_is_idempotent() {
    let mut buffer: Vec<u8> = vec![0x00, 0x31];
    buffer.extend(simple_packet());
    buffer.extend(simple_packet()[..9].to_vec()); // second frame cut short
    let packets = parse(&mut buffer);
    assert_eq!(packets.len(), 1);
    let retained = buffer.len();
    assert_eq!(retained, 9);
    let again = parse(&mut buffer);
    assert_eq!(again.len(), 0);
    assert_eq!(buffer.len(), retained);
}

// A frame split across two chunk arrivals is extracted once complete.
#[test]
fn split_frame_is_completed_by_the_next_chunk() {
    let whole = simple_packet();
    let mut buffer: Vec<u8> = whole[..10].to_vec();
    let packets = parse(&mut buffer);
    assert_eq!(packets.len(), 0);
    assert_eq!(buffer.len(), 10);
    buffer.extend(whole[10..].to_vec());
    let packets = parse(&mut buffer);
    assert_eq!(packets.len(), 1);
    assert_eq!(buffer.len(), 0);
}

#[test]
fn not_null_accepts_everything_but_the_terminator() {
    assert!(si2mqtt::parse::not_null(0x7e));
    assert!(si2mqtt::parse::not_null(0x01));
    assert!(!si2mqtt::parse::not_null(0x00));
}

// A stray start marker whose frame shape ends in the wrong end byte is
// stepped past, and a real frame behind it is still found.
#[test]
fn stray_marker_bytes_do_not_hide_a_later_frame() {
    let mut buffer: Vec<u8> = vec![
        0x7e, 0xff, 0x03, 0x42, 0x43, 0x01, 0x0b, 0x01, 0x01, 0x00, 0x00, 0x00, 0x00, 0x00, 0xde,
        0xad, 0x99, // end byte is wrong: not a frame
    ];
    buffer.extend(simple_packet());
    let packets = parse(&mut buffer);
    assert_eq!(packets.len(), 1);
    assert_eq!(buffer.len(), 0);
}
