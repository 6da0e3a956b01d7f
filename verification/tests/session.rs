//! Registration, the registry's uniqueness guarantee, liveness decisions,
//! outbound ordering, and configuration defaults.

use cawird::client::{ClientState, Outgoing};
use cawird::command::Command;
use cawird::config::Config;
use cawird::error::ProtocolError;
use cawird::message::{Message, MessageContents};
use cawird::response::Response;
use cawird::server::{
    on_nick_checked, registration_step, Pending, RegAction, Server, ServerError, ServerPhase,
    ServerState,
};
use cawird::transport::{Pinger, PING_INTERVAL_SECS, PING_TIMEOUT_SECS};

fn msg(line: &str) -> Command {
    match Message::parse(line).unwrap().contents {
        MessageContents::Command(c) => c,
        other => panic!("unexpected contents {:?}", other),
    }
}

/// Drives one inbound command through the registration machinery.
fn drive(state: &mut ServerState, pending: &mut Pending, client: &mut ClientState, line: &str)
    -> Result<(), Response> {
    let cmd = msg(line);
    match registration_step(pending, &cmd) {
        RegAction::Continue => Ok(()),
        RegAction::CheckNick(n) => {
            let taken = state.check_nick(&n);
            match on_nick_checked(pending, &n, taken) {
                None => Ok(()),
                Some(resp) => Err(resp),
            }
        }
        RegAction::TryRegister(user, realname) => {
            state.register_client(pending, client, &user, &realname)
        }
        RegAction::Reply(resp) => Err(resp),
    }
}

#[test]
fn nick_then_user_registers() {
    let mut state = ServerState::new("srv".into());
    let mut pending = Pending::new();
    let mut client = ClientState::new();
    drive(&mut state, &mut pending, &mut client, "NICK alice").unwrap();
    drive(&mut state, &mut pending, &mut client, "USER alice 0 * :Alice Example").unwrap();
    assert!(client.is_registered());
    assert!(state.check_nick("alice"));
    assert_eq!(client.nick().map(String::as_str), Some("alice"));
}

#[test]
fn pass_is_stored_before_nick() {
    let mut state = ServerState::new("srv".into());
    let mut pending = Pending::new();
    let mut client = ClientState::new();
    drive(&mut state, &mut pending, &mut client, "PASS sesame").unwrap();
    assert_eq!(pending.password.as_deref(), Some("sesame"));
    drive(&mut state, &mut pending, &mut client, "NICK alice").unwrap();
    assert_eq!(pending.nick.as_deref(), Some("alice"));
}

#[test]
fn second_registration_of_a_nick_collides() {
    let mut state = ServerState::new("srv".into());

    let mut pending1 = Pending::new();
    let mut client1 = ClientState::new();
    drive(&mut state, &mut pending1, &mut client1, "NICK alice").unwrap();
    drive(&mut state, &mut pending1, &mut client1, "USER alice 0 * :One").unwrap();

    let mut pending2 = Pending::new();
    let mut client2 = ClientState::new();
    let err = drive(&mut state, &mut pending2, &mut client2, "NICK alice").unwrap_err();
    assert!(matches!(err, Response::ErrNickCollision(ref n) if n == "alice"));
    let wire = state.with_server_prefix(Message::from(err)).to_string();
    assert_eq!(wire, ":srv 436 alice :Nickname collision KILL\r\n");
    assert!(!client2.is_registered());
}

#[test]
fn racing_user_completions_yield_one_success() {
    // Both connections saw the nickname free; the write-lock re-check in
    // register_client lets exactly one in.
    let mut state = ServerState::new("srv".into());

    let mut pending1 = Pending::new();
    let mut client1 = ClientState::new();
    drive(&mut state, &mut pending1, &mut client1, "NICK bob").unwrap();
    let mut pending2 = Pending::new();
    let mut client2 = ClientState::new();
    drive(&mut state, &mut pending2, &mut client2, "NICK bob").unwrap();

    let first = state.register_client(&pending1, &mut client1, "bob", "One");
    let second = state.register_client(&pending2, &mut client2, "bob", "Two");
    assert!(first.is_ok());
    assert!(matches!(second, Err(Response::ErrNickCollision(ref n)) if n == "bob"));
    assert!(client1.is_registered());
    assert!(!client2.is_registered());
}

#[test]
fn commands_before_registration_get_451() {
    let mut state = ServerState::new("srv".into());
    let mut pending = Pending::new();
    let mut client = ClientState::new();
    let err = drive(&mut state, &mut pending, &mut client, "JOIN #foo").unwrap_err();
    let wire = state.with_server_prefix(Message::from(err)).to_string();
    assert_eq!(wire, ":srv 451 :You have not registered\r\n");
    assert!(!client.is_registered());
}

#[test]
fn user_before_nick_is_refused() {
    let mut state = ServerState::new("srv".into());
    let mut pending = Pending::new();
    let mut client = ClientState::new();
    let err = drive(&mut state, &mut pending, &mut client, "USER alice 0 * :Alice").unwrap_err();
    assert!(matches!(err, Response::ErrNotRegistered));
}

#[test]
fn ping_and_pong_are_ignored_during_registration() {
    let mut state = ServerState::new("srv".into());
    let mut pending = Pending::new();
    let mut client = ClientState::new();
    drive(&mut state, &mut pending, &mut client, "PING srv").unwrap();
    drive(&mut state, &mut pending, &mut client, "PONG srv").unwrap();
    assert!(!client.is_registered());
}

#[test]
fn removal_frees_the_nick() {
    let mut state = ServerState::new("srv".into());
    let mut pending = Pending::new();
    let mut client = ClientState::new();
    drive(&mut state, &mut pending, &mut client, "NICK alice").unwrap();
    drive(&mut state, &mut pending, &mut client, "USER alice 0 * :Alice").unwrap();
    assert!(state.check_nick("alice"));
    state.remove_client("alice");
    assert!(!state.check_nick("alice"));
}

#[test]
fn pinger_answers_ping_before_surfacing() {
    let mut pinger = Pinger::new("srv.example.com");
    let inbound = Message::parse("PING token").unwrap();
    let reply = pinger.handle_message(&inbound).unwrap();
    assert_eq!(reply.to_string(), "PONG token\r\n");
}

#[test]
fn pinger_ticks_arm_and_pong_clears() {
    let mut pinger = Pinger::new("srv.example.com");
    assert!(!pinger.deadline_is_armed());
    let ping = pinger.on_tick().unwrap();
    assert_eq!(ping.to_string(), "PING srv.example.com\r\n");
    assert!(pinger.deadline_is_armed());
    let pong = Message::parse("PONG srv.example.com").unwrap();
    assert!(pinger.handle_message(&pong).is_none());
    assert!(!pinger.deadline_is_armed());
}

#[test]
fn expired_deadline_is_a_ping_timeout() {
    let mut pinger = Pinger::new("srv");
    pinger.on_tick();
    assert!(pinger.deadline_is_armed());
    assert!(matches!(pinger.on_deadline(), ProtocolError::PingTimeout));
}

#[test]
fn pinger_periods_match_the_design() {
    assert_eq!(PING_INTERVAL_SECS, 120);
    assert_eq!(PING_TIMEOUT_SECS, 30);
}

#[test]
fn outbound_preserves_enqueue_order() {
    let mut out = Outgoing::new();
    let m1 = Message::from(Command::Notice("a", "msg one"));
    let m2 = Message::from(Command::Notice("a", "msg two"));
    let m3 = Message::from(Command::Notice("a", "msg three"));

    // Sink not ready: the first message is buffered.
    assert!(out.on_received(m1, false).is_none());
    // Readiness drains the buffer first.
    let first = out.on_sink_ready().unwrap();
    assert_eq!(first.to_string(), "NOTICE a :msg one\r\n");
    // A ready sink passes messages straight through, in order.
    let second = out.on_received(m2, true).unwrap();
    let third = out.on_received(m3, true).unwrap();
    assert_eq!(second.to_string(), "NOTICE a :msg two\r\n");
    assert_eq!(third.to_string(), "NOTICE a :msg three\r\n");
    assert!(out.on_sink_ready().is_none());
}

#[test]
fn listeners_change_only_during_startup() {
    let mut server = Server::new("srv".into());
    let conf = Config::default();
    server.add_listener(conf.server.listeners[0].clone()).unwrap();
    server.set_phase(ServerPhase::Running);
    let err = server.add_listener(conf.server.listeners[0].clone()).unwrap_err();
    assert!(matches!(err, ServerError::ListenerModification(_)));
    assert_eq!(server.listeners.len(), 1);
}

#[test]
fn default_config_binds_one_plain_listener() {
    let conf = Config::default();
    assert_eq!(conf.server.name, "localhost");
    assert_eq!(conf.server.listeners.len(), 1);
    assert_eq!(conf.server.listeners[0].name, "plain");
    assert_eq!(conf.server.listeners[0].address, "127.0.0.1:6667");
    assert!(conf.server.listeners[0].tls.is_none());
}
