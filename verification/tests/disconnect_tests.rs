use hopper_handshake::codec::{read_bytes, read_varint, RawPacket};
use hopper_handshake::error::{HopperError, ProtoError};
use hopper_handshake::client::{IncomingClient, NextState};
use hopper_handshake::lazy::LazyPacket;
use hopper_handshake::negotiate::{Negotiation, Step};
use hopper_handshake::packets::{
    encode_disconnect_frame, encode_handshake, encode_login_start, Disconnect, Handshake,
    LoginStart, State,
};

fn negotiated_client(state: State) -> IncomingClient<u32> {
    let payload = encode_handshake(&Handshake {
        protocol_version: 758,
        server_address: b"play.example.com".to_vec(),
        server_port: 25565,
        next_state: state,
    });
    let machine = Negotiation::new("203.0.113.9:51234".to_string());
    let step = machine.on_packet(RawPacket { id: 0, data: payload });
    let machine = match step {
        Step::Complete(done) => return done.with_stream(42),
        Step::NeedPacket(m) => m,
        Step::Rejected(_) => panic!("the handshake must be accepted"),
    };
    let login = encode_login_start(&LoginStart { username: b"Notch".to_vec() });
    match machine.on_packet(RawPacket { id: 0, data: login }) {
        Step::Complete(done) => done.with_stream(42),
        _ => panic!("the login-start packet must complete the negotiation"),
    }
}

/// Splits a framed disconnect packet and returns the reason it carries.
fn reason_of_frame(frame: &Vec<u8>) -> Vec<u8> {
    let (body_len, p) = read_varint(frame, 0).unwrap();
    assert_eq!(p + body_len as usize, frame.len(), "one whole packet, nothing after it");
    let (id, p) = read_varint(frame, p).unwrap();
    assert_eq!(id, 0, "the disconnect packet id");
    let (reason, end) = read_bytes(frame, p).unwrap();
    assert_eq!(end, frame.len());
    reason
}

#[test]
fn disconnect_on_login_client_writes_one_packet_with_the_reason() {
    let client = negotiated_client(State::Login);
    let (stream, notice) = client.disconnect(b"server is full".to_vec());
    assert_eq!(stream, 42, "the stream is released to the caller");
    let frame = notice.expect("a login client is owed a disconnect packet");
    assert_eq!(reason_of_frame(&frame), b"server is full".to_vec());
}

#[test]
fn disconnect_frame_matches_the_encoder() {
    let client = negotiated_client(State::Login);
    let (_, notice) = client.disconnect(b"go away".to_vec());
    let expected = encode_disconnect_frame(&Disconnect::new(b"go away".to_vec()));
    assert_eq!(notice, Some(expected));
}

#[test]
fn disconnect_on_status_client_writes_nothing() {
    let client = negotiated_client(State::Status);
    let (stream, notice) = client.disconnect(b"server is full".to_vec());
    assert_eq!(stream, 42);
    assert_eq!(notice, None);
}

#[test]
fn disconnect_on_undecodable_handshake_writes_nothing() {
    // the handshake bytes were read but decode to nothing: intent is
    // unknowable, so the peer gets no notice
    let bad = LazyPacket::<Handshake>::try_from_raw(RawPacket { id: 0, data: vec![0xFFu8] })
        .expect("the packet id matches, so wrapping succeeds");
    let client = IncomingClient {
        address: "203.0.113.9:51234".to_string(),
        stream: 42u32,
        handshake: bad,
        next_state: NextState::Status,
    };
    let (_, notice) = client.disconnect(b"unused".to_vec());
    assert_eq!(notice, None);
}

#[test]
fn disconnect_err_renders_the_timeout_message() {
    let client = negotiated_client(State::Login);
    let (_, notice) = client.disconnect_err(&HopperError::TimeOut);
    let frame = notice.expect("a login client is owed a disconnect packet");
    assert_eq!(reason_of_frame(&frame), b"timeout".to_vec());
}

#[test]
fn disconnect_err_renders_the_protocol_message() {
    let client = negotiated_client(State::Login);
    let (_, notice) = client.disconnect_err(&HopperError::Protocol(ProtoError::Decode));
    let frame = notice.expect("a login client is owed a disconnect packet");
    assert_eq!(reason_of_frame(&frame), b"bad packet".to_vec());
}

#[test]
fn disconnect_frame_exact_bytes() {
    // body: packet id 0, then the reason "hi" length-prefixed; the frame
    // prefixes the body with its length, 4
    let frame = encode_disconnect_frame(&Disconnect::new(b"hi".to_vec()));
    assert_eq!(frame, vec![4u8, 0, 2, 104, 105]);
}

#[test]
fn error_messages() {
    assert_eq!(HopperError::TimeOut.message(), b"timeout".to_vec());
    assert_eq!(HopperError::Protocol(ProtoError::Io).message(), b"bad packet".to_vec());
}
