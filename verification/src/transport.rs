//! Per-connection liveness decisions: when the interval timer ticks, a
//! PING is injected and a deadline armed; an inbound PONG clears the
//! deadline; an inbound PING is answered; an expired deadline is fatal.
//! The timers themselves run in the surrounding runtime with the periods
//! named here.

use crate::command::{Command, CommandV};
use crate::error::ProtocolError;
use crate::message::{ContentsV, Message, MessageContents, MessageV};
use vstd::prelude::*;
use vstd::string::StringExecFns;

verus! {

/// Seconds between injected PINGs.
pub const PING_INTERVAL_SECS: u64 = 120;

/// Seconds after an injected PING within which a PONG must arrive.
pub const PING_TIMEOUT_SECS: u64 = 30;

/// The liveness state of one connection.
pub struct Pinger {
    enabled: bool,
    deadline_armed: bool,
    server_name: String,
}

impl Pinger {
    /// Whether the pinger injects PINGs at all.
    pub closed spec fn is_enabled(&self) -> bool {
        self.enabled
    }

    /// Whether a PONG deadline is currently armed.
    pub closed spec fn armed(&self) -> bool {
        self.deadline_armed
    }

    /// The name carried in injected PINGs: the configured server name.
    pub closed spec fn server(&self) -> Seq<char> {
        self.server_name@
    }

    /// A fresh pinger: enabled, with no deadline armed.
    pub fn new(server_name: &str) -> (r: Pinger)
        ensures
            r.is_enabled(),
            !r.armed(),
            r.server() == server_name@,
    {
        Pinger { enabled: true, deadline_armed: false, server_name: String::from_str(server_name) }
    }

    /// Whether a PONG deadline is currently armed, for the timer loop.
    pub fn deadline_is_armed(&self) -> (r: bool)
        ensures
            r == self.armed(),
    {
        self.deadline_armed
    }

    /// The interval timer fired: when enabled, a `PING <server>` goes out
    /// through the shared queue and the deadline is armed if it was not.
    pub fn on_tick(&mut self) -> (r: Option<Message>)
        ensures
            final (self).server() == old(self).server(),
            final (self).is_enabled() == old(self).is_enabled(),
            if old(self).is_enabled() {
                (r matches Some(m) && m@ == (MessageV {
                    prefix: None,
                    contents: ContentsV::Command(CommandV::Ping(old(self).server(), None)),
                })) && final (self).armed()
            } else {
                r is None && final (self).armed() == old(self).armed()
            },
    {
        if self.enabled {
            self.deadline_armed = true;
            let ping = Command::Ping(self.server_name.as_str(), None);
            Some(Message { prefix: None, contents: MessageContents::Command(ping) })
        } else {
            None
        }
    }

    /// The armed deadline expired without a PONG: the connection fails
    /// with a ping timeout.
    pub fn on_deadline(&self) -> (r: ProtocolError)
        requires
            self.armed(),
        ensures
            r is PingTimeout,
    {
        ProtocolError::PingTimeout
    }

    /// Inspects one inbound message before it is surfaced: a PING is
    /// answered with a PONG carrying the same token; a PONG clears the
    /// deadline; everything else passes untouched.
    pub fn handle_message(&mut self, message: &Message) -> (r: Option<Message>)
        ensures
            final (self).server() == old(self).server(),
            final (self).is_enabled() == old(self).is_enabled(),
            match message@.contents {
                ContentsV::Command(c) => match c {
                    CommandV::Ping(tok, _) => (r matches Some(m) && m@ == (MessageV {
                        prefix: None,
                        contents: ContentsV::Command(CommandV::Pong(tok, None)),
                    })) && final (self).armed() == old(self).armed(),
                    CommandV::Pong(_, _) => r is None && !final (self).armed(),
                    _ => r is None && final (self).armed() == old(self).armed(),
                },
                ContentsV::Response(_) => r is None && final (self).armed() == old(self).armed(),
            },
    {
        match &message.contents {
            MessageContents::Command(command) => match command {
                Command::PING(data, _) => {
                    let pong = Command::Pong(data.as_str(), None);
                    Some(Message { prefix: None, contents: MessageContents::Command(pong) })
                },
                Command::PONG(_, _) => {
                    self.deadline_armed = false;
                    None
                },
                _ => None,
            },
            _ => None,
        }
    }
}

} // verus!
