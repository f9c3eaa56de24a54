use chat_relay::auth::{chat_route, AuthError};
use chat_relay::message::{Disconnect, ReadMessage, WsMessage};
use chat_relay::sessions::{
    Command, Frame, Heartbeat, Phase, ProtocolError, WsChatSession, CLIENT_TIMEOUT,
    HEARTBEAT_INTERVAL,
};
use chat_relay::wire::DecodeError;

fn line(msg: &str, sender: &str, recv: &str, time: u64, read: bool) -> WsMessage {
    WsMessage {
        msg: msg.to_string(),
        sender: sender.to_string(),
        time,
        recv: recv.to_string(),
        read,
    }
}

fn shutdown(id: &str, close_frame: bool) -> Command {
    Command::Shutdown { disconnect: Disconnect { id: id.to_string() }, close_frame }
}

fn active(name: &str, now: u64) -> WsChatSession {
    let mut session = WsChatSession::new(name.to_string(), now, Heartbeat::default());
    session.started();
    session
}

#[test]
fn default_heartbeat_probes_every_five_seconds_and_waits_ten() {
    assert_eq!(HEARTBEAT_INTERVAL, 5_000);
    assert_eq!(CLIENT_TIMEOUT, 10_000);
    assert_eq!(Heartbeat::default(), Heartbeat { interval: 5_000, timeout: 10_000 });
}

#[test]
fn new_session_is_starting() {
    let session = WsChatSession::new("alice".to_string(), 42, Heartbeat::default());
    assert_eq!(session.phase(), Phase::Starting);
    assert_eq!(session.name(), "alice");
    assert_eq!(session.last_heartbeat(), 42);
}

#[test]
fn started_registers_once() {
    let mut session =
        WsChatSession::new("alice".to_string(), 0, Heartbeat { interval: 250, timeout: 900 });
    assert_eq!(session.started(), Command::Register { id: "alice".to_string(), every: 250 });
    assert_eq!(session.phase(), Phase::Active);
    assert_eq!(session.started(), Command::Nothing);
    assert_eq!(session.phase(), Phase::Active);
}

#[test]
fn beat_probes_a_peer_that_is_not_silent_for_too_long() {
    let mut session = active("alice", 1_000);
    assert_eq!(session.hb(1_000), Command::Ping);
    assert_eq!(session.hb(6_000), Command::Ping);
    assert_eq!(session.hb(11_000), Command::Ping);
    assert_eq!(session.phase(), Phase::Active);
    assert_eq!(session.last_heartbeat(), 1_000);
}

#[test]
fn beat_closes_a_peer_that_is_silent_for_too_long() {
    let mut session = active("alice", 1_000);
    assert_eq!(session.hb(11_001), shutdown("alice", false));
    assert_eq!(session.phase(), Phase::Closing);
}

#[test]
fn beat_with_a_clock_that_went_back_probes() {
    let mut session = active("alice", 50_000);
    assert_eq!(session.hb(10), Command::Ping);
    assert_eq!(session.phase(), Phase::Active);
}

#[test]
fn beat_at_the_end_of_time_does_not_overflow() {
    let mut session = active("alice", 0);
    assert_eq!(session.hb(u64::MAX), shutdown("alice", false));
    let mut late = active("bob", u64::MAX);
    assert_eq!(late.hb(u64::MAX), Command::Ping);
}

#[test]
fn timeout_yields_exactly_one_disconnect() {
    let mut session = active("alice", 0);
    let mut commands = vec![
        session.hb(5_000),
        session.hb(10_000),
        session.hb(15_000),
        session.hb(20_000),
        session.stopping(),
        session.handle(Ok(Frame::Pong), 20_001),
        session.hb(25_000),
    ];
    commands.retain(|command| matches!(command, Command::Shutdown { .. }));
    assert_eq!(commands, vec![shutdown("alice", false)]);
    assert_eq!(session.phase(), Phase::Closing);
}

#[test]
fn signs_of_life_push_the_timeout_back() {
    let mut session = active("alice", 0);
    assert_eq!(session.handle(Ok(Frame::Pong), 9_000), Command::Nothing);
    assert_eq!(session.last_heartbeat(), 9_000);
    assert_eq!(session.hb(15_000), Command::Ping);
    assert_eq!(session.handle(Ok(Frame::Ping(vec![1, 2, 3])), 18_000), Command::Pong(vec![1, 2, 3]));
    assert_eq!(session.last_heartbeat(), 18_000);
    assert_eq!(session.hb(28_000), Command::Ping);
    let text = r#"{"msg":"hi","sender":"alice","recv":"bob","time":1000,"read":false}"#;
    session.handle(Ok(Frame::Text(text.to_string())), 30_000);
    assert_eq!(session.last_heartbeat(), 30_000);
    assert_eq!(session.hb(40_000), Command::Ping);
    assert_eq!(session.hb(40_001), shutdown("alice", false));
}

#[test]
fn binary_frame_closes() {
    let mut session = active("alice", 0);
    assert_eq!(session.handle(Ok(Frame::Binary), 5), shutdown("alice", false));
    assert_eq!(session.phase(), Phase::Closing);
}

#[test]
fn nop_is_no_sign_of_life() {
    let mut session = active("alice", 0);
    assert_eq!(session.handle(Ok(Frame::Nop), 9_000), Command::Nothing);
    assert_eq!(session.last_heartbeat(), 0);
    assert_eq!(session.phase(), Phase::Active);
}

#[test]
fn text_frame_with_a_chat_line_is_routed() {
    let mut session = active("alice", 0);
    let text = r#"{"msg":"hi","sender":"alice","recv":"bob","time":1000,"read":false}"#;
    assert_eq!(
        session.handle(Ok(Frame::Text(text.to_string())), 77),
        Command::Route(line("hi", "alice", "bob", 1000, false))
    );
    assert_eq!(session.last_heartbeat(), 77);
    assert_eq!(session.phase(), Phase::Active);
}

#[test]
fn text_frame_with_the_read_flag_is_a_receipt() {
    let mut session = active("bob", 0);
    let text = r#"{"msg":"","sender":"bob","recv":"alice","time":0,"read":true}"#;
    assert_eq!(
        session.handle(Ok(Frame::Text(text.to_string())), 5),
        Command::RouteRead(ReadMessage { reader: "bob".to_string(), writer: "alice".to_string() })
    );
    assert_eq!(session.phase(), Phase::Active);
}

#[test]
fn malformed_text_closes_the_connection() {
    let mut session = active("alice", 0);
    assert_eq!(session.handle(Ok(Frame::Text("not json".to_string())), 5), shutdown("alice", false));
    assert_eq!(session.phase(), Phase::Closing);

    let mut other = active("bob", 0);
    assert_eq!(
        other.handle(Ok(Frame::Text(r#"{"msg":"hi"}"#.to_string())), 5),
        shutdown("bob", false)
    );
    assert_eq!(other.phase(), Phase::Closing);
}

#[test]
fn handle_text_takes_the_outcome_of_reading() {
    let mut session = active("alice", 0);
    assert_eq!(
        session.handle_text(Ok(line("hi", "alice", "bob", 1, false)), 3),
        Command::Route(line("hi", "alice", "bob", 1, false))
    );
    assert_eq!(session.last_heartbeat(), 3);
    assert_eq!(
        session.handle_text(Ok(line("x", "alice", "bob", 1, true)), 4),
        Command::RouteRead(ReadMessage { reader: "alice".to_string(), writer: "bob".to_string() })
    );
    assert_eq!(session.handle_text(Err(DecodeError::NotARecord), 5), shutdown("alice", false));
    assert_eq!(session.handle_text(Ok(line("hi", "alice", "bob", 1, false)), 6), Command::Nothing);

    let mut other = active("bob", 0);
    assert_eq!(other.handle_text(Err(DecodeError::NotJson), 5), shutdown("bob", false));
}

#[test]
fn close_frame_is_answered_and_closes() {
    let mut session = active("alice", 0);
    assert_eq!(session.handle(Ok(Frame::Close), 5), shutdown("alice", true));
    assert_eq!(session.phase(), Phase::Closing);
}

#[test]
fn continuation_frame_closes() {
    let mut session = active("alice", 0);
    assert_eq!(session.handle(Ok(Frame::Continuation), 5), shutdown("alice", false));
    assert_eq!(session.phase(), Phase::Closing);
}

#[test]
fn transport_error_closes() {
    let mut session = active("alice", 0);
    assert_eq!(session.handle(Err(ProtocolError), 5), shutdown("alice", false));
    assert_eq!(session.phase(), Phase::Closing);
}

#[test]
fn stopping_disconnects_once() {
    let mut session = active("alice", 0);
    assert_eq!(session.stopping(), shutdown("alice", false));
    assert_eq!(session.stopping(), Command::Nothing);
    assert_eq!(session.phase(), Phase::Closing);
}

#[test]
fn stopping_after_a_close_frame_does_not_disconnect_again() {
    let mut session = active("alice", 0);
    assert_eq!(session.handle(Ok(Frame::Close), 1), shutdown("alice", true));
    assert_eq!(session.stopping(), Command::Nothing);
}

#[test]
fn closing_session_does_nothing_any_more() {
    let mut session = active("alice", 0);
    session.stopping();
    let text = r#"{"msg":"hi","sender":"alice","recv":"bob","time":1000,"read":false}"#;
    assert_eq!(session.started(), Command::Nothing);
    assert_eq!(session.hb(1_000_000), Command::Nothing);
    assert_eq!(session.handle(Ok(Frame::Text(text.to_string())), 9), Command::Nothing);
    assert_eq!(session.handle(Ok(Frame::Ping(vec![7])), 9), Command::Nothing);
    assert_eq!(session.handle(Ok(Frame::Close), 9), Command::Nothing);
    assert_eq!(session.handle(Err(ProtocolError), 9), Command::Nothing);
    assert_eq!(session.push(&line("hi", "bob", "alice", 1, false)), Command::Nothing);
    assert_eq!(session.phase(), Phase::Closing);
    assert_eq!(session.last_heartbeat(), 0);
}

#[test]
fn push_writes_the_record_in_the_wire_format() {
    let session = active("bob", 0);
    assert_eq!(
        session.push(&WsMessage::read_notice("alice".to_string())),
        Command::Write(r#"{"msg":"","sender":"alice","recv":"","time":0,"read":true}"#.to_string())
    );
    assert_eq!(session.phase(), Phase::Active);
}

#[test]
fn session_that_was_never_started_still_closes_with_one_disconnect() {
    let mut session = WsChatSession::new("alice".to_string(), 0, Heartbeat::default());
    assert_eq!(session.stopping(), shutdown("alice", false));
    assert_eq!(session.started(), Command::Nothing);
    assert_eq!(session.phase(), Phase::Closing);
}

#[test]
fn chat_route_opens_a_session_for_the_identity() {
    let session = chat_route(Some("alice".to_string()), 99).unwrap();
    assert_eq!(session.name(), "alice");
    assert_eq!(session.phase(), Phase::Starting);
    assert_eq!(session.last_heartbeat(), 99);
}

#[test]
fn chat_route_refuses_a_session_of_nobody() {
    assert_eq!(chat_route(None, 99).err(), Some(AuthError::Unauthorized));
}
