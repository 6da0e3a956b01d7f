//! Wire-level parsing and serialization of messages, commands, prefixes
//! and numeric replies.

use cawird::command::Command;
use cawird::error::{MessageParseError, ProtocolError};
use cawird::message::{Message, MessageContents};
use cawird::prefix::Prefix;
use cawird::response::Response;

fn parse_ok(line: &str) -> Message {
    match Message::parse(line) {
        Ok(m) => m,
        Err(e) => panic!("expected {:?} to parse, got {:?}", line, e),
    }
}

fn parse_err(line: &str) -> MessageParseError {
    match Message::parse(line) {
        Ok(m) => panic!("expected {:?} to fail, got {:?}", line, m),
        Err(ProtocolError::InvalidMessage { cause, .. }) => cause,
        Err(e) => panic!("expected an invalid-message failure, got {:?}", e),
    }
}

#[test]
fn parses_privmsg_with_prefix_and_trailing() {
    let m = parse_ok(":nick!u@h PRIVMSG #chan :hello world");
    match &m.prefix {
        Some(Prefix::User { nick, user, host }) => {
            assert_eq!(nick, "nick");
            assert_eq!(user.as_deref(), Some("u"));
            assert_eq!(host.as_deref(), Some("h"));
        }
        other => panic!("unexpected prefix {:?}", other),
    }
    match &m.contents {
        MessageContents::Command(Command::PRIVMSG(target, text, cc)) => {
            assert_eq!(target, "#chan");
            assert_eq!(text, "hello world");
            assert!(cc.is_none());
        }
        other => panic!("unexpected contents {:?}", other),
    }
    assert_eq!(m.to_string(), ":nick!u@h PRIVMSG #chan :hello world\r\n");
}

#[test]
fn round_trips_each_known_verb() {
    let lines = [
        "PASS secret",
        "NICK alice",
        "NICK alice 2",
        "USER alice 0 * :Alice Example",
        "PING irc.example.com",
        "PONG irc.example.com other.example.com",
        "PRIVMSG #chan :hello world",
        "NOTICE alice :hey there",
        "QUIT :gone home",
        "QUIT",
    ];
    for line in lines {
        let m = parse_ok(line);
        let mut wire = String::from(line);
        wire.push_str("\r\n");
        assert_eq!(m.to_string(), wire, "round trip of {:?}", line);
    }
}

#[test]
fn round_trips_through_values() {
    let c = Command::Notice("alice", "hey there");
    let m = Message::from(c.clone());
    let wire = m.to_string();
    assert_eq!(wire, "NOTICE alice :hey there\r\n");
    let back = parse_ok(wire.trim_end_matches("\r\n"));
    match back.contents {
        MessageContents::Command(got) => assert_eq!(got, c),
        other => panic!("unexpected contents {:?}", other),
    }
}

#[test]
fn verbs_match_case_insensitively() {
    let m = parse_ok("privmsg #c :hi");
    match &m.contents {
        MessageContents::Command(Command::PRIVMSG(target, text, _)) => {
            assert_eq!(target, "#c");
            assert_eq!(text, "hi");
        }
        other => panic!("unexpected contents {:?}", other),
    }
}

#[test]
fn privmsg_splits_comma_recipients() {
    let m = parse_ok("PRIVMSG a,b,c :yo");
    match &m.contents {
        MessageContents::Command(Command::PRIVMSG(target, text, cc)) => {
            assert_eq!(target, "a");
            assert_eq!(text, "yo");
            assert_eq!(cc.as_deref(), Some(&["b".to_string(), "c".to_string()][..]));
        }
        other => panic!("unexpected contents {:?}", other),
    }
    // "yo" is a bare token, so the serializer leaves the colon off.
    assert_eq!(m.to_string(), "PRIVMSG a,b,c yo\r\n");
}

#[test]
fn empty_line_is_refused() {
    assert!(matches!(parse_err(""), MessageParseError::EmptyMessage));
}

#[test]
fn colon_without_command_is_refused() {
    assert!(matches!(parse_err(":abc"), MessageParseError::InvalidCommand));
}

#[test]
fn wrong_arity_is_refused() {
    assert!(matches!(
        parse_err("NOTICE alice"),
        MessageParseError::InvalidArgumentCount
    ));
    assert!(matches!(
        parse_err("USER too few"),
        MessageParseError::InvalidArgumentCount
    ));
}

#[test]
fn unknown_verbs_become_raw() {
    let m = parse_ok("JOIN #foo");
    match &m.contents {
        MessageContents::Command(Command::RAW(verb, args)) => {
            assert_eq!(verb, "JOIN");
            assert_eq!(args, &["#foo".to_string()]);
        }
        other => panic!("unexpected contents {:?}", other),
    }
}

#[test]
fn extra_middles_fold_into_the_fourteenth() {
    let m = parse_ok("FROB a1 a2 a3 a4 a5 a6 a7 a8 a9 a10 a11 a12 a13 a14 a15");
    match &m.contents {
        MessageContents::Command(Command::RAW(_, args)) => {
            assert_eq!(args.len(), 14);
            assert_eq!(args[13], "a14 a15");
        }
        other => panic!("unexpected contents {:?}", other),
    }
}

#[test]
fn responses_format_their_numerics() {
    assert_eq!(
        Response::ErrNoSuchCommand("JOIN".into()).to_string(),
        "421 JOIN :Unknown command"
    );
    assert_eq!(
        Response::ErrNickCollision("alice".into()).to_string(),
        "436 alice :Nickname collision KILL"
    );
    assert_eq!(
        Response::ErrNotRegistered.to_string(),
        "451 :You have not registered"
    );
    assert_eq!(
        Response::ErrNeedMoreParams("USER".into()).to_string(),
        "461 USER :Not enough parameters"
    );
}

#[test]
fn response_messages_carry_crlf() {
    let m = Message::from(Response::ErrNotRegistered);
    assert_eq!(m.to_string(), "451 :You have not registered\r\n");
}

#[test]
fn prefix_shapes() {
    match Prefix::parse("irc.example.com") {
        Prefix::Server(h) => assert_eq!(h, "irc.example.com"),
        other => panic!("unexpected prefix {:?}", other),
    }
    match Prefix::parse("alice") {
        Prefix::User { nick, user, host } => {
            assert_eq!(nick, "alice");
            assert!(user.is_none() && host.is_none());
        }
        other => panic!("unexpected prefix {:?}", other),
    }
    match Prefix::parse("alice!al") {
        Prefix::User { nick, user, host } => {
            assert_eq!(nick, "alice");
            assert_eq!(user.as_deref(), Some("al"));
            assert!(host.is_none());
        }
        other => panic!("unexpected prefix {:?}", other),
    }
}

#[test]
fn prefix_round_trips() {
    for text in ["irc.example.com", "alice", "alice!al", "alice!al@host.example"] {
        assert_eq!(Prefix::parse(text).to_string(), text, "prefix {:?}", text);
    }
}

#[test]
fn error_wrapping_carries_the_response() {
    let e = MessageParseError::from(Response::ErrNotRegistered);
    assert!(matches!(
        e,
        MessageParseError::ErrResponse(Response::ErrNotRegistered)
    ));
}

#[test]
fn set_prefix_replaces_the_source() {
    let mut m = Message::from(Command::Notice("*", "hello there"));
    m.set_prefix("srv.example.com");
    assert_eq!(m.to_string(), ":srv.example.com NOTICE * :hello there\r\n");
}
