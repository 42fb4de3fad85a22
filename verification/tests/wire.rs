use cell_sdk::wire::{
    be_length_prefixed, bytes_equal, channel_message, decode_header, encode_broker_connect,
    encode_header, encode_request, encode_upgrade_request, genome_request, is_upgrade_ack,
    length_prefixed, parse_channel_message, parse_request, response_len_ok, route_packet,
    split_frame, starts_with, tail_from, upgrade_ack_payload, VesicleHeader, CHANNEL_APP,
    CHANNEL_OPS, CHANNEL_ROUTING,
};
use cell_sdk::error::CellError;

#[test]
fn header_layout_and_roundtrip() {
    let h = VesicleHeader { target_id: 0x0102030405060708, source_id: 9, ttl: 64, flags: 3 };
    let b = encode_header(&h);
    assert_eq!(b.len(), 24);
    assert_eq!(&b[0..8], &[8, 7, 6, 5, 4, 3, 2, 1]);
    assert_eq!(&b[8..16], &[9, 0, 0, 0, 0, 0, 0, 0]);
    assert_eq!(b[16], 64);
    assert_eq!(b[17], 3);
    assert_eq!(&b[18..24], &[0u8; 6]);
    assert_eq!(decode_header(&b), Some(h));
    assert_eq!(decode_header(&b[..23]), None);
}

#[test]
fn request_frame_reads_back() {
    let f = encode_request(42, CHANNEL_OPS, b"ping");
    assert_eq!(&f[0..4], &(29u32).to_le_bytes());
    let (n, body) = split_frame(&f).unwrap();
    assert_eq!(n, 29);
    assert_eq!(body.len(), 29);
    let (c, p) = parse_request(&body).unwrap();
    assert_eq!(c, CHANNEL_OPS);
    assert_eq!(p, b"ping".to_vec());
    assert_eq!(parse_request(&body[..24]), None);
    assert_eq!(split_frame(&[1, 2, 3]), None);
}

#[test]
fn length_frames() {
    assert_eq!(length_prefixed(b"ab"), vec![2, 0, 0, 0, b'a', b'b']);
    assert_eq!(be_length_prefixed(b"ab"), vec![0, 0, 0, 2, b'a', b'b']);
    assert_eq!(encode_broker_connect(b"db"), vec![1, 0, 0, 0, 2, b'd', b'b']);
}

#[test]
fn channel_messages_roundtrip_and_empty_is_reset() {
    let m = channel_message(CHANNEL_APP, b"xyz");
    assert_eq!(m, vec![0, b'x', b'y', b'z']);
    assert_eq!(parse_channel_message(&m), Ok((CHANNEL_APP, b"xyz".to_vec())));
    assert_eq!(parse_channel_message(&[]), Err(CellError::ConnectionReset));
}

#[test]
fn upgrade_and_genome_texts() {
    let f = encode_upgrade_request();
    assert_eq!(&f[0..4], &[40, 0, 0, 0]);
    assert_eq!(&f[4..28], &[0u8; 24]);
    assert_eq!(f[28], CHANNEL_ROUTING);
    assert_eq!(&f[29..33], &[11, 0, 0, 0]);
    assert_eq!(&f[33..], b"UPGRADE:SHM");
    assert_eq!(upgrade_ack_payload(), b"UPGRADE:ACK".to_vec());
    assert!(is_upgrade_ack(b"UPGRADE:ACK and more"));
    assert!(!is_upgrade_ack(b"UPGRADE:AC"));
    assert_eq!(genome_request(), b"__CELL_GENOME_REQUEST__".to_vec());
}

#[test]
fn routing_spends_one_hop() {
    let h = VesicleHeader { target_id: 5, source_id: 6, ttl: 2, flags: 0 };
    let out = route_packet(&h, b"pp").unwrap();
    assert_eq!(out[0], 2);
    let fwd = decode_header(&out[1..25]).unwrap();
    assert_eq!(fwd.ttl, 1);
    assert_eq!(fwd.target_id, 5);
    assert_eq!(&out[25..], b"pp");
    let dead = VesicleHeader { ttl: 0, ..h };
    assert_eq!(route_packet(&dead, b"pp"), None);
}

#[test]
fn byte_helpers() {
    assert!(bytes_equal(b"abc", b"abc"));
    assert!(!bytes_equal(b"abc", b"abd"));
    assert!(starts_with(b"abcdef", b"abc"));
    assert!(!starts_with(b"ab", b"abc"));
    assert_eq!(tail_from(b"abcdef", 4), b"ef".to_vec());
    assert!(response_len_ok(104_857_600));
    assert!(!response_len_ok(104_857_601));
}
