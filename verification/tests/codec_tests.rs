use hopper_handshake::codec::{encode_varint, read_bytes, read_varint, RawPacket};
use hopper_handshake::error::ProtoError;

fn varint(v: u32) -> Vec<u8> {
    let mut out: Vec<u8> = Vec::new();
    encode_varint(v, &mut out);
    out
}

#[test]
fn varint_single_byte_values() {
    assert_eq!(varint(0), vec![0u8]);
    assert_eq!(varint(1), vec![1u8]);
    assert_eq!(varint(127), vec![127u8]);
}

#[test]
fn varint_multi_byte_values() {
    assert_eq!(varint(128), vec![0x80u8, 0x01]);
    assert_eq!(varint(300), vec![0xACu8, 0x02]);
    assert_eq!(varint(25565), vec![0xDDu8, 0xC7, 0x01]);
    assert_eq!(varint(u32::MAX), vec![0xFFu8, 0xFF, 0xFF, 0xFF, 0x0F]);
}

#[test]
fn varint_round_trip() {
    for v in [0u32, 1, 127, 128, 255, 300, 758, 25565, 2097151, 2097152, u32::MAX] {
        let e = varint(v);
        let got = read_varint(&e, 0).unwrap();
        assert_eq!(got, (v, e.len()));
    }
}

#[test]
fn varint_offset_read() {
    let mut data = vec![0xFFu8, 0xFF];
    encode_varint(758, &mut data);
    assert_eq!(read_varint(&data, 2).unwrap(), (758, data.len()));
}

#[test]
fn varint_truncated_is_decode_error() {
    assert_eq!(read_varint(&vec![0x80u8], 0), Err(ProtoError::Decode));
    assert_eq!(read_varint(&Vec::new(), 0), Err(ProtoError::Decode));
}

#[test]
fn varint_too_long_is_decode_error() {
    let data = vec![0x80u8, 0x80, 0x80, 0x80, 0x80, 0x01];
    assert_eq!(read_varint(&data, 0), Err(ProtoError::Decode));
}

#[test]
fn varint_overflow_is_decode_error() {
    // five groups of 127: well-formed on the wire, but 2^35 - 1 > u32::MAX
    let data = vec![0xFFu8, 0xFF, 0xFF, 0xFF, 0x7F];
    assert_eq!(read_varint(&data, 0), Err(ProtoError::Decode));
}

#[test]
fn bytes_round_trip() {
    let mut data: Vec<u8> = Vec::new();
    encode_varint(3, &mut data);
    data.extend_from_slice(b"abc");
    let (got, end) = read_bytes(&data, 0).unwrap();
    assert_eq!(got, b"abc".to_vec());
    assert_eq!(end, 4);
}

#[test]
fn bytes_truncated_is_decode_error() {
    let data = vec![5u8, 97, 98];
    assert_eq!(read_bytes(&data, 0), Err(ProtoError::Decode));
}

#[test]
fn frame_body_splits_id_and_payload() {
    let body = vec![0u8, 1, 2, 3];
    let pkt = RawPacket::parse(body).unwrap();
    assert_eq!(pkt.id, 0);
    assert_eq!(pkt.data, vec![1u8, 2, 3]);
}

#[test]
fn frame_body_with_large_id() {
    let mut body = Vec::new();
    encode_varint(300, &mut body);
    body.push(9);
    let pkt = RawPacket::parse(body).unwrap();
    assert_eq!(pkt.id, 300);
    assert_eq!(pkt.data, vec![9u8]);
}

#[test]
fn empty_frame_body_is_decode_error() {
    match RawPacket::parse(Vec::new()) {
        Err(ProtoError::Decode) => {},
        _ => panic!("an empty frame body must fail to parse"),
    }
}
