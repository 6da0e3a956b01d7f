//! Per-client session state and the outbound drain driver: the identity a
//! client registers, and the decisions that move queued messages into the
//! sink in the order they were enqueued.

use crate::message::{Message, MessageV};
use vstd::prelude::*;
use vstd::string::StringExecFns;

verus! {

/// Spec-level model of a session's identity.
pub struct ClientStateV {
    pub registered: bool,
    pub nick: Option<Seq<char>>,
    pub user: Option<Seq<char>>,
    pub realname: Option<Seq<char>>,
    pub hostname: Option<Seq<char>>,
}

/// The identity of one client session. A session starts anonymous; the
/// registration handshake fills the fields in.
#[derive(Debug)]
pub struct ClientState {
    registered: bool,
    nick: Option<String>,
    user: Option<String>,
    realname: Option<String>,
    hostname: Option<String>,
}

impl View for ClientState {
    type V = ClientStateV;

    closed spec fn view(&self) -> ClientStateV {
        ClientStateV {
            registered: self.registered,
            nick: self.nick.deep_view(),
            user: self.user.deep_view(),
            realname: self.realname.deep_view(),
            hostname: self.hostname.deep_view(),
        }
    }
}

impl DeepView for ClientState {
    type V = ClientStateV;

    open spec fn deep_view(&self) -> ClientStateV {
        self@
    }
}

/// A registered session names its nick, user and real name.
pub open spec fn client_wf(c: ClientStateV) -> bool {
    c.registered ==> c.nick is Some && c.user is Some && c.realname is Some
}

impl ClientState {
    /// A fresh anonymous session.
    pub fn new() -> (r: ClientState)
        ensures
            r@ == (ClientStateV {
                registered: false,
                nick: None,
                user: None,
                realname: None,
                hostname: None,
            }),
            client_wf(r@),
    {
        ClientState { registered: false, nick: None, user: None, realname: None, hostname: None }
    }

    /// Whether the session has completed registration.
    pub fn is_registered(&self) -> (r: bool)
        ensures
            r == self@.registered,
    {
        self.registered
    }

    /// Records the hostname found for the peer.
    pub fn set_hostname(&mut self, hostname: &str)
        ensures
            final (self)@ == (ClientStateV { hostname: Some(hostname@), ..old(self)@ }),
    {
        self.hostname = Some(String::from_str(hostname));
    }

    /// Fills in the identity and marks the session registered; the
    /// well-formedness of a registered session is established here.
    pub fn register(&mut self, nick: &str, user: &str, realname: &str)
        ensures
            final (self)@ == (ClientStateV {
                registered: true,
                nick: Some(nick@),
                user: Some(user@),
                realname: Some(realname@),
                hostname: old(self)@.hostname,
            }),
            client_wf(final (self)@),
    {
        self.registered = true;
        self.nick = Some(String::from_str(nick));
        self.user = Some(String::from_str(user));
        self.realname = Some(String::from_str(realname));
    }

    /// A copy of this session's identity, for the registry's records.
    pub fn snapshot(&self) -> (r: ClientState)
        ensures
            r@ == self@,
    {
        ClientState {
            registered: self.registered,
            nick: match &self.nick {
                Some(s) => Some(s.clone()),
                None => None,
            },
            user: match &self.user {
                Some(s) => Some(s.clone()),
                None => None,
            },
            realname: match &self.realname {
                Some(s) => Some(s.clone()),
                None => None,
            },
            hostname: match &self.hostname {
                Some(s) => Some(s.clone()),
                None => None,
            },
        }
    }

    /// The registered nickname, when one is set.
    pub fn nick(&self) -> (r: Option<&String>)
        ensures
            match self@.nick {
                Some(n) => r matches Some(s) && s@ == n,
                None => r is None,
            },
    {
        self.nick.as_ref()
    }
}

/// The outbound drain driver for one connection: messages taken off the
/// queue are handed to the sink at once when it is ready, or held in a
/// one-message buffer until it is; the ghost histories record what was
/// received and what was started, oldest first.
pub struct Outgoing {
    buffered: Option<Message>,
    received: Ghost<Seq<MessageV>>,
    started: Ghost<Seq<MessageV>>,
}

impl Outgoing {
    /// What the buffer holds, as a sequence of length zero or one.
    pub closed spec fn buffered_view(&self) -> Option<MessageV> {
        match self.buffered {
            Some(m) => Some(m@),
            None => None,
        }
    }

    /// Every message taken off the queue, in order.
    pub closed spec fn received(&self) -> Seq<MessageV> {
        self.received@
    }

    /// Every message handed to the sink, in order.
    pub closed spec fn started(&self) -> Seq<MessageV> {
        self.started@
    }

    /// Everything received has been started, except at most the one
    /// buffered message, which comes last.
    pub closed spec fn wf(&self) -> bool {
        self.received@ == self.started@ + (match self.buffered {
            Some(m) => seq![m@],
            None => Seq::empty(),
        })
    }

    /// A fresh driver with empty histories.
    pub fn new() -> (r: Outgoing)
        ensures
            r.wf(),
            r.received() == Seq::<MessageV>::empty(),
            r.started() == Seq::<MessageV>::empty(),
            r.buffered_view() is None,
    {
        Outgoing { buffered: None, received: Ghost(Seq::empty()), started: Ghost(Seq::empty()) }
    }

    /// One message came off the queue: hand it straight to the sink when
    /// the sink is ready, else hold it in the buffer.
    pub fn on_received(&mut self, m: Message, sink_ready: bool) -> (r: Option<Message>)
        requires
            old(self).wf(),
            old(self).buffered_view() is None,
        ensures
            final (self).wf(),
            final (self).received() == old(self).received().push(m@),
            if sink_ready {
                (r matches Some(out) && out@ == m@) && final (self).started() == old(
                    self,
                ).started().push(m@) && final (self).buffered_view() is None
            } else {
                r is None && final (self).started() == old(self).started() && final (
                self).buffered_view() == Some(m@)
            },
    {
        proof {
            self.received@ = self.received@.push(m@);
        }
        if sink_ready {
            proof {
                self.started@ = self.started@.push(m@);
            }
            Some(m)
        } else {
            self.buffered = Some(m);
            proof {
                assert(self.received@ =~= self.started@ + seq![m@]);
            }
            None
        }
    }

    /// The sink became ready: the buffered message, if any, goes out.
    pub fn on_sink_ready(&mut self) -> (r: Option<Message>)
        requires
            old(self).wf(),
        ensures
            final (self).wf(),
            final (self).received() == old(self).received(),
            final (self).buffered_view() is None,
            match old(self).buffered_view() {
                Some(mv) => (r matches Some(m) && m@ == mv) && final (self).started() == old(
                    self,
                ).started().push(mv),
                None => r is None && final (self).started() == old(self).started(),
            },
    {
        match self.buffered.take() {
            Some(m) => {
                proof {
                    self.started@ = self.started@.push(m@);
                    assert(self.received@ =~= self.started@);
                }
                Some(m)
            },
            None => None,
        }
    }
}

/// Outbound wire order equals enqueue order: at every point, what has been
/// handed to the sink is a prefix of what was taken off the queue, so the
/// sink sees messages exactly in queue order, none dropped, duplicated or
/// reordered.
pub proof fn lemma_outbound_order(o: &Outgoing)
    requires
        o.wf(),
    ensures
        o.started().is_prefix_of(o.received()),
{
}

} // verus!
