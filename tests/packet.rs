use vsq::error::QueryError;
use vsq::packet::{PacketType, ReqPacket, ResPacket};

#[test]
fn info_request_wire_form() {
    let p = ReqPacket::from_type(PacketType::Info);
    let mut expected = vec![0xFF, 0xFF, 0xFF, 0xFF, 0x54];
    expected.extend_from_slice(b"Source Engine Query\0");
    assert_eq!(p.to_raw(), expected);
}

#[test]
fn rules_request_wire_form() {
    let p = ReqPacket::from_type(PacketType::Rules);
    assert_eq!(p.to_raw(), vec![0xFF, 0xFF, 0xFF, 0xFF, 0x56]);
}

#[test]
fn request_with_challenge_appends_big_endian() {
    let p = ReqPacket::new(0x56, None, Some(0x01020304));
    assert_eq!(p.to_raw(), vec![0xFF, 0xFF, 0xFF, 0xFF, 0x56, 1, 2, 3, 4]);
    let p = ReqPacket::new(0x54, Some(vec![9, 8]), Some(-1));
    assert_eq!(p.to_raw(), vec![0xFF, 0xFF, 0xFF, 0xFF, 0x54, 9, 8, 0xFF, 0xFF, 0xFF, 0xFF]);
}

#[test]
fn request_round_trip_after_stripping_prefix_and_header() {
    let payload = vec![1u8, 2, 3, 0];
    let p = ReqPacket::new(0x31, Some(payload.clone()), Some(-559038737));
    let raw = p.to_raw();
    let mut expected = payload.clone();
    expected.extend_from_slice(&(-559038737i32).to_be_bytes());
    assert_eq!(&raw[..4], &[0xFF, 0xFF, 0xFF, 0xFF]);
    assert_eq!(raw[4], 0x31);
    assert_eq!(raw[5..].to_vec(), expected);
}

#[test]
fn response_framing() {
    let r = ResPacket::from_datagram(&[0xFF, 0xFF, 0xFF, 0xFF, 0x49, 1, 2]).unwrap();
    assert_eq!(r.header, 0x49);
    assert_eq!(r.payload, vec![1, 2]);
    let r = ResPacket::from_datagram(&[0xFF, 0xFF, 0xFF, 0xFF, 0x49]).unwrap();
    assert_eq!(r, ResPacket { header: 0x49, payload: vec![] });
    let r = ResPacket::from_datagram(&[0xFF, 0xFF, 0xFF, 0xFF, 0x41, 1, 2, 3, 4]).unwrap();
    assert_eq!(r, ResPacket { header: 0x41, payload: vec![1, 2, 3, 4] });
}

#[test]
fn response_too_short_is_malformed() {
    assert_eq!(ResPacket::from_datagram(&[0xFF, 0xFF, 0xFF, 0xFF]), Err(QueryError::MalformedPacket));
    assert_eq!(ResPacket::from_datagram(&[]), Err(QueryError::MalformedPacket));
}
