use bytes::BytesMut;
use snxcore::codec::{CodecError, SlimPacketType, SlimProtocolCodec, PKT_CONTROL};

const KEEPALIVE_TEXT: &str = "(keepalive\n\t:id (42))";

fn keepalive() -> SlimPacketType {
    SlimPacketType::Control(KEEPALIVE_TEXT.to_owned())
}

fn be(b: &[u8]) -> u32 {
    u32::from_be_bytes([b[0], b[1], b[2], b[3]])
}

#[test]
fn encode_data_packet() {
    let mut dst = BytesMut::new();
    SlimProtocolCodec.encode(SlimPacketType::Data(vec![1, 2, 3, 4, 5]), &mut dst);
    assert_eq!(&dst[..], &[0, 0, 0, 5, 0, 0, 0, 2, 1, 2, 3, 4, 5]);
}

#[test]
fn encode_control_packet_is_nul_terminated() {
    let expected = KEEPALIVE_TEXT.to_owned();
    let mut dst = BytesMut::new();
    SlimProtocolCodec.encode(keepalive(), &mut dst);

    assert_eq!(be(&dst[0..4]) as usize, expected.len() + 1);
    assert_eq!(be(&dst[4..8]), PKT_CONTROL);
    assert_eq!(&dst[8..dst.len() - 1], expected.as_bytes());
    assert_eq!(dst[dst.len() - 1], 0);
}

#[test]
fn encode_appends_without_clearing() {
    let mut dst = BytesMut::new();
    let mut codec = SlimProtocolCodec;
    codec.encode(SlimPacketType::Data(vec![0xaa]), &mut dst);
    codec.encode(SlimPacketType::Data(vec![0xbb, 0xcc]), &mut dst);
    assert_eq!(&dst[..], &[0, 0, 0, 1, 0, 0, 0, 2, 0xaa, 0, 0, 0, 2, 0, 0, 0, 2, 0xbb, 0xcc]);
}

#[test]
fn decode_data_roundtrip() {
    let data = vec![9, 8, 7, 6];
    let mut buf = BytesMut::new();
    let mut codec = SlimProtocolCodec;
    codec.encode(SlimPacketType::Data(data.clone()), &mut buf);

    let decoded = codec.decode(&mut buf).unwrap().unwrap();

    assert!(matches!(decoded, SlimPacketType::Data(d) if d == data));
    assert!(buf.is_empty());
}

#[test]
fn decode_control_roundtrip_ignores_trailing_nul() {
    let expected = KEEPALIVE_TEXT.to_owned();
    let mut buf = BytesMut::new();
    let mut codec = SlimProtocolCodec;
    codec.encode(keepalive(), &mut buf);

    let decoded = codec.decode(&mut buf).unwrap().unwrap();

    assert!(matches!(decoded, SlimPacketType::Control(e) if e == expected));
    assert!(buf.is_empty());
}

#[test]
fn decode_returns_none_on_partial_input() {
    let mut codec = SlimProtocolCodec;

    let mut buf = BytesMut::from(&[0, 0, 0][..]);
    assert!(codec.decode(&mut buf).unwrap().is_none());

    let mut buf = BytesMut::from(&[0, 0, 0, 4, 0, 0, 0, 2, 1, 2, 3][..]);
    assert!(codec.decode(&mut buf).unwrap().is_none());
    assert_eq!(buf.len(), 11);
}

#[test]
fn decode_leaves_trailing_bytes_of_next_packet() {
    let mut buf = BytesMut::from(&[0, 0, 0, 1, 0, 0, 0, 2, 0xaa, 0, 0, 0, 1][..]);
    let mut codec = SlimProtocolCodec;

    let decoded = codec.decode(&mut buf).unwrap().unwrap();

    assert!(matches!(decoded, SlimPacketType::Data(d) if d == vec![0xaa]));
    assert_eq!(&buf[..], &[0, 0, 0, 1]);
    assert!(codec.decode(&mut buf).unwrap().is_none());
}

#[test]
fn decode_rejects_unknown_packet_type() {
    let mut buf = BytesMut::from(&[0, 0, 0, 1, 0, 0, 0, 7, 0xaa][..]);
    assert!(SlimProtocolCodec.decode(&mut buf).is_err());
}

#[test]
fn decode_reports_the_unknown_type_and_keeps_the_frame() {
    let mut buf = BytesMut::from(&[0, 0, 0, 1, 0, 0, 0, 7, 0xaa][..]);
    match SlimProtocolCodec.decode(&mut buf) {
        Err(CodecError::UnknownPacketType(t)) => assert_eq!(t, 7),
        _ => panic!("expected an unknown packet type"),
    }
    assert_eq!(buf.len(), 9);
}

#[test]
fn decode_replaces_invalid_utf8_in_control_text() {
    let mut buf = BytesMut::from(&[0, 0, 0, 3, 0, 0, 0, 1, b'a', 0xff, 0][..]);
    let decoded = SlimProtocolCodec.decode(&mut buf).unwrap().unwrap();
    assert!(matches!(decoded, SlimPacketType::Control(t) if t == "a\u{fffd}"));
}

#[test]
fn decode_control_without_nul_keeps_every_byte() {
    let mut buf = BytesMut::from(&[0, 0, 0, 2, 0, 0, 0, 1, b'o', b'k'][..]);
    let decoded = SlimProtocolCodec.decode(&mut buf).unwrap().unwrap();
    assert!(matches!(decoded, SlimPacketType::Control(t) if t == "ok"));
}
