use csctrl::connection::{
    ExchangeAction, ExchangeEvent, RconConnection, RconError, RconExchange, TERMINATING_RESPONSE,
};
use csctrl::packet::{ProtocolError, RconPacket, RconPacketType};

fn frame(id: i32, t: RconPacketType, body: &str) -> Vec<u8> {
    RconPacket::new(id, t, body.to_string()).serialize()
}

#[test]
fn serialize_layout() {
    let bytes = frame(7, RconPacketType::ExecCommand, "status");
    assert_eq!(&bytes[0..4], &16i32.to_le_bytes());
    assert_eq!(&bytes[4..8], &7i32.to_le_bytes());
    assert_eq!(&bytes[8..12], &2i32.to_le_bytes());
    assert_eq!(&bytes[12..18], b"status");
    assert_eq!(&bytes[18..], &[0u8, 0u8]);
}

#[test]
fn round_trip_bodies() {
    let bodies = ["", "a", "status", "héllo wörld ✓", &"x".repeat(4000)];
    for body in bodies.iter() {
        let bytes = frame(42, RconPacketType::ResponseValue, body);
        let size = i32::from_le_bytes([bytes[0], bytes[1], bytes[2], bytes[3]]);
        assert_eq!(size as usize, 10 + body.len());
        let (p, n) = RconPacket::deserialize(&bytes, true).ok().unwrap();
        assert_eq!(n, bytes.len());
        assert_eq!(p.get_id(), 42);
        assert!(matches!(p.get_type(), RconPacketType::ResponseValue));
        assert_eq!(p.get_body(), *body);
    }
}

#[test]
fn round_trip_exec_command_outside_server_context() {
    let bytes = frame(3, RconPacketType::ExecCommand, "echo hi");
    let (p, _) = RconPacket::deserialize(&bytes, false).ok().unwrap();
    assert_eq!(p.get_type(), RconPacketType::ExecCommand);
    let (q, _) = RconPacket::deserialize(&bytes, true).ok().unwrap();
    assert_eq!(q.get_type(), RconPacketType::AuthResponse);
}

#[test]
fn deserialize_reads_only_the_first_frame() {
    let mut bytes = frame(1, RconPacketType::ResponseValue, "one");
    let first_len = bytes.len();
    bytes.extend(frame(2, RconPacketType::ResponseValue, "two"));
    let (p, n) = RconPacket::deserialize(&bytes, true).ok().unwrap();
    assert_eq!(n, first_len);
    assert_eq!(p.get_body(), "one");
    let (q, _) = RconPacket::deserialize(&bytes[n..], true).ok().unwrap();
    assert_eq!(q.get_body(), "two");
}

#[test]
fn deserialize_errors() {
    let good = frame(1, RconPacketType::ResponseValue, "abc");
    assert_eq!(RconPacket::deserialize(&good[..3], true).err(), Some(ProtocolError::Truncated));
    assert_eq!(RconPacket::deserialize(&good[..good.len() - 1], true).err(), Some(ProtocolError::Truncated));
    let mut small = good.clone();
    small[0..4].copy_from_slice(&9i32.to_le_bytes());
    assert_eq!(RconPacket::deserialize(&small, true).err(), Some(ProtocolError::BadSize));
    let mut big = good.clone();
    big[0..4].copy_from_slice(&4111i32.to_le_bytes());
    assert_eq!(RconPacket::deserialize(&big, true).err(), Some(ProtocolError::BadSize));
    let mut unterminated = good.clone();
    let last = unterminated.len() - 1;
    unterminated[last] = 1;
    assert_eq!(RconPacket::deserialize(&unterminated, true).err(), Some(ProtocolError::MissingTerminator));
    let mut bad_utf8 = good.clone();
    bad_utf8[12] = 0xff;
    assert_eq!(RconPacket::deserialize(&bad_utf8, true).err(), Some(ProtocolError::BadUtf8));
}

#[test]
fn packet_type_codes() {
    assert_eq!(RconPacketType::Auth.to_i32(), 3);
    assert_eq!(RconPacketType::AuthResponse.to_i32(), 2);
    assert_eq!(RconPacketType::ExecCommand.to_i32(), 2);
    assert_eq!(RconPacketType::ResponseValue.to_i32(), 0);
    assert_eq!(RconPacketType::Undefined(9).to_i32(), 9);
    assert_eq!(RconPacketType::from_i32(2, true), RconPacketType::AuthResponse);
    assert_eq!(RconPacketType::from_i32(2, false), RconPacketType::ExecCommand);
    assert_eq!(RconPacketType::from_i32(3, true), RconPacketType::Auth);
    assert_eq!(RconPacketType::from_i32(0, false), RconPacketType::ResponseValue);
    assert_eq!(RconPacketType::from_i32(-90, true), RconPacketType::Undefined(-90));
}

#[test]
fn is_error_on_negative_id() {
    assert!(RconPacket::new(-1, RconPacketType::AuthResponse, String::new()).is_error());
    assert!(!RconPacket::new(0, RconPacketType::AuthResponse, String::new()).is_error());
}

#[test]
fn packet_ids_count_from_zero() {
    let mut c = RconConnection::create_rcon_connection("1.2.3.4:27015", "pw");
    assert_eq!(c.get_new_packet_id(), 0);
    assert_eq!(c.get_new_packet_id(), 1);
    assert_eq!(c.get_new_packet_id(), 2);
    assert!(!c.get_is_valid());
    assert_eq!(c.get_address(), "1.2.3.4:27015");
}

fn received(id: i32, t: RconPacketType, body: &str) -> ExchangeEvent {
    ExchangeEvent::Received(RconPacket::new(id, t, body.to_string()))
}

#[test]
fn execute_collects_until_terminator() {
    let mut conn = RconConnection::create_rcon_connection("1.2.3.4:27015", "secret");
    let mut ex = RconExchange::new("X");
    match ex.step(&mut conn, ExchangeEvent::Connected) {
        ExchangeAction::SendThenReceive(bytes) => assert_eq!(bytes, frame(0, RconPacketType::Auth, "secret")),
        _ => panic!("expected the auth packet"),
    }
    assert!(matches!(ex.step(&mut conn, received(0, RconPacketType::ResponseValue, "")), ExchangeAction::Receive));
    match ex.step(&mut conn, received(0, RconPacketType::AuthResponse, "")) {
        ExchangeAction::SendThenReceive(bytes) => {
            let mut expected = frame(1, RconPacketType::ExecCommand, "X");
            expected.extend(frame(2, RconPacketType::ExecCommand, "echo CsctrlTerminatingRconCommand"));
            assert_eq!(bytes, expected);
        }
        _ => panic!("expected the command packets"),
    }
    assert!(conn.get_is_valid());
    for body in ["a", "b", "c"] {
        assert!(matches!(ex.step(&mut conn, received(1, RconPacketType::ResponseValue, body)), ExchangeAction::Receive));
    }
    match ex.step(&mut conn, received(2, RconPacketType::ResponseValue, TERMINATING_RESPONSE)) {
        ExchangeAction::Done(Ok(s)) => assert_eq!(s, "abc"),
        _ => panic!("expected the response"),
    }
    assert!(ex.is_finished());
}

#[test]
fn execute_auth_failure() {
    let mut conn = RconConnection::create_rcon_connection("1.2.3.4:27015", "wrong");
    let mut ex = RconExchange::new("status");
    assert!(matches!(ex.step(&mut conn, ExchangeEvent::Connected), ExchangeAction::SendThenReceive(_)));
    match ex.step(&mut conn, received(-1, RconPacketType::AuthResponse, "")) {
        ExchangeAction::Done(Err(e)) => assert_eq!(e, RconError::AuthError),
        _ => panic!("expected an auth error"),
    }
    assert!(ex.is_finished());
    assert!(!conn.get_is_valid());
}

#[test]
fn execute_failures_end_the_exchange() {
    let mut conn = RconConnection::create_rcon_connection("1.2.3.4:27015", "pw");
    let mut ex = RconExchange::new("status");
    match ex.step(&mut conn, ExchangeEvent::Failed(RconError::ConnectError)) {
        ExchangeAction::Done(Err(e)) => assert_eq!(e, RconError::ConnectError),
        _ => panic!("expected the failure"),
    }
    match ex.step(&mut conn, ExchangeEvent::Connected) {
        ExchangeAction::Done(Err(e)) => assert_eq!(e, RconError::ProtocolError),
        _ => panic!("expected a protocol error"),
    }
}

#[test]
fn execute_refuses_long_command() {
    let mut conn = RconConnection::create_rcon_connection("1.2.3.4:27015", "pw");
    let long = "x".repeat(4097);
    let mut ex = RconExchange::new(&long);
    assert!(matches!(ex.step(&mut conn, ExchangeEvent::Connected), ExchangeAction::SendThenReceive(_)));
    match ex.step(&mut conn, received(0, RconPacketType::AuthResponse, "")) {
        ExchangeAction::Done(Err(e)) => assert_eq!(e, RconError::BodyTooLong),
        _ => panic!("expected a refusal"),
    }
}

#[test]
fn largest_frame_size() {
    let at_limit = frame(5, RconPacketType::ResponseValue, &"x".repeat(4100));
    let (p, n) = RconPacket::deserialize(&at_limit, true).ok().unwrap();
    assert_eq!(n, 4114);
    assert_eq!(p.get_body().len(), 4100);
    let over = frame(5, RconPacketType::ResponseValue, &"x".repeat(4101));
    assert_eq!(RconPacket::deserialize(&over, true).err(), Some(ProtocolError::BadSize));
}

#[test]
fn auth_timeout_is_auth_error() {
    let mut conn = RconConnection::create_rcon_connection("1.2.3.4:27015", "pw");
    let mut ex = RconExchange::new("status");
    assert!(matches!(ex.step(&mut conn, ExchangeEvent::Connected), ExchangeAction::SendThenReceive(_)));
    match ex.step(&mut conn, ExchangeEvent::Failed(RconError::Timeout)) {
        ExchangeAction::Done(Err(e)) => assert_eq!(e, RconError::AuthError),
        _ => panic!("expected an auth error"),
    }
}

#[test]
fn response_timeout_stays_timeout() {
    let mut conn = RconConnection::create_rcon_connection("1.2.3.4:27015", "pw");
    let mut ex = RconExchange::new("status");
    ex.step(&mut conn, ExchangeEvent::Connected);
    ex.step(&mut conn, received(0, RconPacketType::AuthResponse, ""));
    match ex.step(&mut conn, ExchangeEvent::Failed(RconError::Timeout)) {
        ExchangeAction::Done(Err(e)) => assert_eq!(e, RconError::Timeout),
        _ => panic!("expected a timeout"),
    }
}

#[test]
fn packets_before_auth_response_are_discarded() {
    let mut conn = RconConnection::create_rcon_connection("1.2.3.4:27015", "pw");
    let mut ex = RconExchange::new("X");
    ex.step(&mut conn, ExchangeEvent::Connected);
    assert!(matches!(ex.step(&mut conn, received(0, RconPacketType::ResponseValue, "noise")), ExchangeAction::Receive));
    ex.step(&mut conn, received(0, RconPacketType::AuthResponse, ""));
    ex.step(&mut conn, received(1, RconPacketType::ResponseValue, "q"));
    match ex.step(&mut conn, received(2, RconPacketType::ResponseValue, TERMINATING_RESPONSE)) {
        ExchangeAction::Done(Ok(s)) => assert_eq!(s, "q"),
        _ => panic!("expected the response"),
    }
}
