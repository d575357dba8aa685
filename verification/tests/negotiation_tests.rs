use hopper_handshake::codec::{encode_bytes, encode_varint, RawPacket};
use hopper_handshake::error::ProtoError;
use hopper_handshake::client::NextState;
use hopper_handshake::negotiate::{Negotiation, Step};
use hopper_handshake::packets::{
    encode_handshake, encode_login_start, Handshake, LoginStart, State,
};

fn handshake_payload(pv: u32, host: &[u8], port: u16, state: State) -> Vec<u8> {
    encode_handshake(&Handshake {
        protocol_version: pv,
        server_address: host.to_vec(),
        server_port: port,
        next_state: state,
    })
}

fn addr() -> String {
    "203.0.113.9:51234".to_string()
}

#[test]
fn handshake_payload_exact_bytes() {
    // 758 as a varint is 0xF6 0x05; the host is length-prefixed; the port
    // is big-endian; Status is tag 1
    let payload = handshake_payload(758, b"ab", 256, State::Status);
    assert_eq!(payload, vec![0xF6u8, 0x05, 2, 97, 98, 1, 0, 1]);
}

#[test]
fn login_start_payload_exact_bytes() {
    let payload = encode_login_start(&LoginStart { username: b"Notch".to_vec() });
    assert_eq!(payload, vec![5u8, 78, 111, 116, 99, 104]);
}

#[test]
fn status_handshake_completes_in_one_packet() {
    let payload = handshake_payload(758, b"play.example.com", 25565, State::Status);
    let machine = Negotiation::new(addr());
    match machine.on_packet(RawPacket { id: 0, data: payload }) {
        Step::Complete(done) => {
            assert!(matches!(done.next_state, NextState::Status));
            let mut client = done.with_stream(());
            let h = client.handshake.data().unwrap();
            assert_eq!(h.protocol_version, 758);
            assert_eq!(h.server_address, b"play.example.com".to_vec());
            assert_eq!(h.server_port, 25565);
            assert_eq!(h.next_state, State::Status);
        },
        _ => panic!("a status handshake must complete without a second packet"),
    }
}

#[test]
fn login_handshake_needs_exactly_one_more_packet() {
    let payload = handshake_payload(758, b"play.example.com", 25565, State::Login);
    let machine = Negotiation::new(addr());
    let machine = match machine.on_packet(RawPacket { id: 0, data: payload }) {
        Step::NeedPacket(m) => m,
        _ => panic!("a login handshake must ask for the login-start packet"),
    };
    let login = encode_login_start(&LoginStart { username: b"Notch".to_vec() });
    match machine.on_packet(RawPacket { id: 0, data: login }) {
        Step::Complete(done) => {
            let mut client = done.with_stream(());
            let h = client.handshake.data().unwrap();
            assert_eq!(h.protocol_version, 758);
            assert_eq!(h.server_address, b"play.example.com".to_vec());
            assert_eq!(h.server_port, 25565);
            assert_eq!(h.next_state, State::Login);
            match client.next_state {
                NextState::Login(mut lazy) => {
                    let l = lazy.data().unwrap();
                    assert_eq!(l.username, b"Notch".to_vec());
                },
                NextState::Status => panic!("intent was login"),
            }
        },
        _ => panic!("a login-start packet must complete the negotiation"),
    }
}

#[test]
fn invalid_intent_tag_rejects_with_decode_error() {
    // protocol version, host and port as usual, then intent tag 3, which
    // names no state
    let mut payload: Vec<u8> = Vec::new();
    encode_varint(758, &mut payload);
    encode_bytes(&b"play.example.com".to_vec(), &mut payload);
    payload.push((25565u16 / 256) as u8);
    payload.push((25565u16 % 256) as u8);
    encode_varint(3, &mut payload);
    let machine = Negotiation::new(addr());
    match machine.on_packet(RawPacket { id: 0, data: payload }) {
        Step::Rejected(rej) => {
            assert_eq!(rej.error, ProtoError::Decode);
            assert_eq!(rej.address, "203.0.113.9:51234");
            assert!(rej.handshake.is_some(), "the received bytes stay attached");
            // intent is unknowable, so no disconnect notice is owed
            assert_eq!(rej.disconnect(b"unused".to_vec()), None);
        },
        _ => panic!("an invalid intent tag must reject the negotiation"),
    }
}

#[test]
fn truncated_handshake_rejects_with_decode_error() {
    let payload = handshake_payload(758, b"play.example.com", 25565, State::Status);
    let cut = payload[..payload.len() - 1].to_vec();
    let machine = Negotiation::new(addr());
    match machine.on_packet(RawPacket { id: 0, data: cut }) {
        Step::Rejected(rej) => assert_eq!(rej.error, ProtoError::Decode),
        _ => panic!("a truncated handshake must reject the negotiation"),
    }
}

#[test]
fn wrong_handshake_packet_id_is_unexpected_packet() {
    let payload = handshake_payload(758, b"play.example.com", 25565, State::Status);
    let machine = Negotiation::new(addr());
    match machine.on_packet(RawPacket { id: 5, data: payload }) {
        Step::Rejected(rej) => {
            assert_eq!(rej.error, ProtoError::UnexpectedPacket);
            assert!(rej.handshake.is_none(), "no handshake was received under its id");
            assert_eq!(rej.disconnect(b"unused".to_vec()), None);
        },
        _ => panic!("a wrong packet id must reject the negotiation"),
    }
}

#[test]
fn wrong_login_start_packet_id_is_unexpected_packet() {
    let payload = handshake_payload(758, b"play.example.com", 25565, State::Login);
    let machine = Negotiation::new(addr());
    let machine = match machine.on_packet(RawPacket { id: 0, data: payload }) {
        Step::NeedPacket(m) => m,
        _ => panic!("a login handshake must ask for the login-start packet"),
    };
    match machine.on_packet(RawPacket { id: 7, data: Vec::new() }) {
        Step::Rejected(rej) => {
            assert_eq!(rej.error, ProtoError::UnexpectedPacket);
            assert!(rej.handshake.is_some(), "the classified handshake stays attached");
            // the peer did declare Login, so it is owed a disconnect notice
            let frame = rej.disconnect(b"bad request".to_vec());
            assert!(frame.is_some());
        },
        _ => panic!("a wrong packet id must reject the negotiation"),
    }
}

#[test]
fn login_start_payload_is_not_decoded_during_negotiation() {
    // a malformed login-start payload still completes negotiation: its
    // decode is deferred to whoever asks for the username
    let payload = handshake_payload(758, b"play.example.com", 25565, State::Login);
    let machine = Negotiation::new(addr());
    let machine = match machine.on_packet(RawPacket { id: 0, data: payload }) {
        Step::NeedPacket(m) => m,
        _ => panic!("a login handshake must ask for the login-start packet"),
    };
    match machine.on_packet(RawPacket { id: 0, data: vec![9u8] }) {
        Step::Complete(done) => match done.next_state {
            NextState::Login(mut lazy) => {
                assert_eq!(lazy.data().err(), Some(ProtoError::Decode));
            },
            NextState::Status => panic!("intent was login"),
        },
        _ => panic!("negotiation must complete before the login-start is decoded"),
    }
}

#[test]
fn describe_shows_the_peer_address() {
    let payload = handshake_payload(758, b"play.example.com", 25565, State::Status);
    let machine = Negotiation::new(addr());
    match machine.on_packet(RawPacket { id: 0, data: payload }) {
        Step::Complete(done) => {
            let client = done.with_stream(());
            assert_eq!(client.describe(), "203.0.113.9:51234");
        },
        _ => panic!("a status handshake must complete"),
    }
}
