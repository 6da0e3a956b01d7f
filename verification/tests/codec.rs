//! Line framing over byte buffers and the encoding-aware codecs.

use bytes::BytesMut;
use cawird::codecs::{LineCodec, MessageCodec};
use cawird::command::Command;
use cawird::error::{LineCodecError, ProtocolError};
use cawird::line::{IrcCodec, IrcCodecError};
use cawird::message::{Message, MessageContents};

fn buf(bytes: &[u8]) -> BytesMut {
    let mut b = BytesMut::new();
    b.extend_from_slice(bytes);
    b
}

#[test]
fn frames_a_crlf_line_and_keeps_the_rest() {
    let mut codec = IrcCodec::new();
    let mut src = buf(b"PING :tok\r\nPA");
    let line = codec.decode(&mut src).unwrap().unwrap();
    assert_eq!(line, b"PING :tok");
    assert_eq!(&src[..], b"PA");
    assert!(codec.decode(&mut src).unwrap().is_none());
}

#[test]
fn decoding_in_chunks_yields_the_same_lines() {
    // The same bytes, fed whole and fed in two pieces, frame identically.
    let whole = b"NICK alice\r\nUSER alice 0 * :Alice\r\n";
    let mut codec = IrcCodec::new();
    let mut src = buf(whole);
    let mut all: Vec<Vec<u8>> = Vec::new();
    while let Some(line) = codec.decode(&mut src).unwrap() {
        all.push(line);
    }

    let mut codec2 = IrcCodec::new();
    let mut src2 = buf(&whole[..13]);
    let mut split: Vec<Vec<u8>> = Vec::new();
    while let Some(line) = codec2.decode(&mut src2).unwrap() {
        split.push(line);
    }
    src2.extend_from_slice(&whole[13..]);
    while let Some(line) = codec2.decode(&mut src2).unwrap() {
        split.push(line);
    }
    assert_eq!(all, split);
    assert_eq!(all, vec![b"NICK alice".to_vec(), b"USER alice 0 * :Alice".to_vec()]);
}

#[test]
fn every_split_point_yields_the_same_lines() {
    let whole: &[u8] = b"PASS s\r\nNICK alice\r\npartial";
    let mut reference = IrcCodec::new();
    let mut src = buf(whole);
    let mut expect: Vec<Vec<u8>> = Vec::new();
    while let Some(line) = reference.decode(&mut src).unwrap() {
        expect.push(line);
    }
    for k in 0..=whole.len() {
        let mut codec = IrcCodec::new();
        let mut src = buf(&whole[..k]);
        let mut got: Vec<Vec<u8>> = Vec::new();
        while let Some(line) = codec.decode(&mut src).unwrap() {
            got.push(line);
        }
        src.extend_from_slice(&whole[k..]);
        while let Some(line) = codec.decode(&mut src).unwrap() {
            got.push(line);
        }
        assert_eq!(got, expect, "split at {}", k);
        assert_eq!(&src[..], b"partial", "split at {}", k);
    }
}

#[test]
fn strips_one_carriage_return_only() {
    let mut codec = IrcCodec::new();
    let mut src = buf(b"abc\r\nxy\nab\rc\n\r\n\n");
    assert_eq!(codec.decode(&mut src).unwrap().unwrap(), b"abc");
    assert_eq!(codec.decode(&mut src).unwrap().unwrap(), b"xy");
    assert_eq!(codec.decode(&mut src).unwrap().unwrap(), b"ab\rc");
    assert_eq!(codec.decode(&mut src).unwrap().unwrap(), b"");
    assert_eq!(codec.decode(&mut src).unwrap().unwrap(), b"");
    assert!(codec.decode(&mut src).unwrap().is_none());
}

#[test]
fn overflow_fails_without_consuming() {
    let mut codec = IrcCodec::new();
    let mut src = buf(&[b'x'; 513]);
    match codec.decode(&mut src) {
        Err(IrcCodecError::MaxLineLengthExceeded) => {}
        other => panic!("expected an overflow, got {:?}", other),
    }
    assert_eq!(src.len(), 513);
}

#[test]
fn terminator_beyond_the_limit_still_overflows() {
    let mut codec = IrcCodec::new_break_length(8);
    let mut src = buf(b"0123456789\n");
    assert!(matches!(
        codec.decode(&mut src),
        Err(IrcCodecError::MaxLineLengthExceeded)
    ));
    assert_eq!(src.len(), 11);
}

#[test]
fn emitted_lines_stay_within_the_limit() {
    let mut codec = IrcCodec::new_break_length(8);
    let mut src = buf(b"12345678\nx\n");
    let line = codec.decode(&mut src).unwrap().unwrap();
    assert!(line.len() <= 8);
    assert_eq!(line, b"12345678");
}

#[test]
fn unknown_encoding_labels_are_refused() {
    match LineCodec::new("not-a-real-encoding") {
        Err(LineCodecError::InvalidEncoding(l)) => assert_eq!(l, "not-a-real-encoding"),
        other => panic!("expected a label refusal, got {:?}", other),
    }
}

#[test]
fn labels_resolve_to_canonical_names() {
    let codec = LineCodec::new("latin1").unwrap();
    assert_eq!(codec.name(), "windows-1252");
}

#[test]
fn invalid_utf8_decodes_with_replacement() {
    let mut codec = LineCodec::new("utf-8").unwrap();
    let mut src = buf(b"a\xffb\r\n");
    let line = codec.decode(&mut src).unwrap().unwrap();
    assert_eq!(line, "a\u{fffd}b");
}

#[test]
fn encode_appends_the_encoded_line() {
    let mut codec = LineCodec::new("utf-8").unwrap();
    let mut dst = BytesMut::new();
    codec.encode(String::from("caf\u{e9}\r\n"), &mut dst).unwrap();
    assert_eq!(&dst[..], b"caf\xc3\xa9\r\n");
}

#[test]
fn encode_refuses_overlong_lines() {
    let mut codec = LineCodec::new_max_length("utf-8", 8).unwrap();
    let mut dst = BytesMut::new();
    assert!(matches!(
        codec.encode(String::from("0123456789"), &mut dst),
        Err(LineCodecError::MaxLineLengthExceeded)
    ));
    assert!(dst.is_empty());
}

#[test]
fn message_codec_round_trips_on_the_wire() {
    let mut codec = MessageCodec::new("utf-8").unwrap();
    let mut wire = BytesMut::new();
    let msg = Message::from(Command::Privmsg("#chan", "hello world", None));
    codec.encode(msg, &mut wire).unwrap();
    assert_eq!(&wire[..], b"PRIVMSG #chan :hello world\r\n");

    let got = codec.decode(&mut wire).unwrap().unwrap();
    match got.contents {
        MessageContents::Command(Command::PRIVMSG(target, text, cc)) => {
            assert_eq!(target, "#chan");
            assert_eq!(text, "hello world");
            assert!(cc.is_none());
        }
        other => panic!("unexpected contents {:?}", other),
    }
    assert!(wire.is_empty());
}

#[test]
fn message_codec_wraps_parse_failures() {
    let mut codec = MessageCodec::new("utf-8").unwrap();
    let mut wire = buf(b"NOTICE alice\r\n");
    match codec.decode(&mut wire) {
        Err(ProtocolError::InvalidMessage { string, .. }) => {
            assert_eq!(string, "NOTICE alice");
        }
        other => panic!("expected a parse failure, got {:?}", other),
    }
}

#[test]
fn message_codec_wraps_line_overflow() {
    let mut codec = MessageCodec::new("utf-8").unwrap();
    let mut wire = buf(&[b'x'; 600]);
    match codec.decode(&mut wire) {
        Err(ProtocolError::InvalidMessage { string, cause }) => {
            assert_eq!(string, "line error");
            assert!(format!("{:?}", cause).contains("MaxLineLengthExceeded"));
        }
        other => panic!("expected an overflow, got {:?}", other),
    }
}
