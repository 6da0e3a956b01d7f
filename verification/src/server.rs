//! The server core: the nickname registry with its uniqueness invariant,
//! the registration state machine one connection walks through, and the
//! startup-time listener set.

use crate::client::{client_wf, ClientState, ClientStateV};
use crate::command::{Command, CommandV};
use crate::message::{Message, MessageV};
use crate::prefix::spec_parse_prefix;
use crate::response::{Response, ResponseV};
use vstd::prelude::*;
use vstd::string::StringExecFns;

verus! {

/// The lifecycle phase of the server: listeners may change only during
/// startup.
#[derive(Clone, Copy, PartialEq, Eq, Structural, Debug)]
pub enum ServerPhase {
    Startup,
    Running,
}

/// The shared server state: the server's name and the registry of
/// registered sessions, keyed by nickname.
#[derive(Debug)]
pub struct ServerState {
    hostname: String,
    clients: Vec<ClientState>,
}

impl ServerState {
    /// The configured server name.
    pub closed spec fn name(&self) -> Seq<char> {
        self.hostname@
    }

    /// The registered sessions, in registration order.
    pub closed spec fn records(&self) -> Seq<ClientStateV> {
        self.clients.deep_view()
    }

    /// The registered nicknames, in registration order.
    pub open spec fn nicks(&self) -> Seq<Seq<char>> {
        Seq::new(self.records().len(), |i: int| self.records()[i].nick->0)
    }

    /// Whether a nickname is registered.
    pub open spec fn contains_nick(&self, n: Seq<char>) -> bool {
        self.nicks().contains(n)
    }

    /// Every record is a registered, well-formed session whose key is its
    /// own nickname, and no nickname repeats.
    pub open spec fn wf(&self) -> bool {
        (forall|i: int|
            0 <= i < self.records().len() ==> (#[trigger] self.records()[i]).registered
                && client_wf(self.records()[i])) && self.nicks().no_duplicates()
    }

    /// A fresh registry with no sessions.
    pub fn new(hostname: String) -> (r: ServerState)
        ensures
            r.wf(),
            r.name() == hostname@,
            r.nicks() == Seq::<Seq<char>>::empty(),
    {
        let r = ServerState { hostname, clients: Vec::new() };
        proof {
            assert(r.nicks() =~~= Seq::<Seq<char>>::empty());
        }
        r
    }

    /// The configured server name.
    pub fn get_name(&self) -> (r: &str)
        ensures
            r@ == self.name(),
    {
        self.hostname.as_str()
    }

    /// Whether a nickname is already registered.
    pub fn check_nick(&self, nick: &str) -> (r: bool)
        requires
            self.wf(),
        ensures
            r == self.contains_nick(nick@),
    {
        let sought = String::from_str(nick);
        let n = self.clients.len();
        let mut k: usize = 0;
        proof {
            crate::text::lemma_vec_deep_view(&self.clients);
        }
        while k < n
            invariant
                0 <= k <= n,
                n == self.clients@.len(),
                sought@ == nick@,
                self.wf(),
                self.records().len() == n,
                forall|i: int| 0 <= i < n ==> self.records()[i] == self.clients@[i]@,
                forall|j: int| 0 <= j < k ==> self.nicks()[j] != nick@,
            decreases n - k,
        {
            match self.clients[k].nick() {
                Some(s) => {
                    if *s == sought {
                        proof {
                            assert(self.nicks()[k as int] == nick@);
                        }
                        return true;
                    }
                },
                None => {},
            }
            k = k + 1;
        }
        proof {
            if self.contains_nick(nick@) {
                let i = choose|i: int| 0 <= i < self.nicks().len() && self.nicks()[i] == nick@;
                assert(self.nicks()[i] == nick@);
            }
        }
        false
    }

    /// Stamps a message with the server's own prefix.
    pub fn with_server_prefix(&self, msg: Message) -> (r: Message)
        ensures
            r@ == (MessageV {
                prefix: Some(spec_parse_prefix(self.name())),
                contents: msg@.contents,
            }),
    {
        let mut m = msg;
        m.set_prefix(self.hostname.as_str());
        m
    }

    /// Completes a registration atomically: the nickname must have been
    /// chosen, and is re-checked against the registry before the session
    /// is registered and inserted, so two sessions can never hold one
    /// nickname. The collision reply names the nickname; a `USER` before
    /// any `NICK` is refused as unregistered.
    pub fn register_client(
        &mut self,
        pending: &Pending,
        client: &mut ClientState,
        user: &str,
        realname: &str,
    ) -> (r: Result<(), Response>)
        requires
            old(self).wf(),
        ensures
            final (self).wf(),
            final (self).name() == old(self).name(),
            match pending.nick {
                None => (r matches Err(resp) && resp@ == ResponseV::NotRegistered) && *final (self)
                    == *old(self) && *final (client) == *old(client),
                Some(n) => if old(self).contains_nick(n@) {
                    (r matches Err(resp) && resp@ == ResponseV::NickCollision(n@)) && *final (self)
                        == *old(self) && *final (client) == *old(client)
                } else {
                    r is Ok && final (self).nicks() == old(self).nicks().push(n@) && final (
                    client)@ == (ClientStateV {
                        registered: true,
                        nick: Some(n@),
                        user: Some(user@),
                        realname: Some(realname@),
                        hostname: old(client)@.hostname,
                    }) && final (self).contains_nick(n@)
                },
            },
    {
        match &pending.nick {
            None => Err(Response::ErrNotRegistered),
            Some(n) => {
                if self.check_nick(n.as_str()) {
                    Err(Response::ErrNickCollision(n.clone()))
                } else {
                    client.register(n.as_str(), user, realname);
                    let record = client.snapshot();
                    proof {
                        crate::text::lemma_vec_deep_view(&self.clients);
                    }
                    self.clients.push(record);
                    proof {
                        crate::text::lemma_vec_deep_view(&self.clients);
                        assert(self.records() =~~= old(self).records().push(record@));
                        assert(self.nicks() =~~= old(self).nicks().push(n@));
                        assert(self.nicks().drop_last() =~~= old(self).nicks());
                        assert(self.nicks().no_duplicates()) by {
                            assert(forall|i: int, j: int|
                                0 <= i < j < self.nicks().len() ==> #[trigger] self.nicks()[i]
                                    != #[trigger] self.nicks()[j]) by {
                                assert(forall|i: int|
                                    0 <= i < old(self).nicks().len() ==> old(self).nicks()[i]
                                        != n@);
                            }
                        }
                        assert(self.nicks()[self.nicks().len() - 1] == n@);
                    }
                    Ok(())
                }
            },
        }
    }

    /// Removes a session from the registry when it ends; other nicknames
    /// are untouched.
    pub fn remove_client(&mut self, nick: &str)
        requires
            old(self).wf(),
        ensures
            final (self).wf(),
            final (self).name() == old(self).name(),
            !final (self).contains_nick(nick@),
            forall|m: Seq<char>|
                m != nick@ ==> final (self).contains_nick(m) == old(self).contains_nick(m),
    {
        let sought = String::from_str(nick);
        let n = self.clients.len();
        let mut k: usize = 0;
        proof {
            crate::text::lemma_vec_deep_view(&self.clients);
        }
        while k < n
            invariant
                0 <= k <= n,
                n == self.clients@.len(),
                sought@ == nick@,
                self.wf(),
                *self == *old(self),
                self.records().len() == n,
                forall|i: int| 0 <= i < n ==> self.records()[i] == self.clients@[i]@,
                forall|j: int| 0 <= j < k ==> self.nicks()[j] != nick@,
            decreases n - k,
        {
            let hit = match self.clients[k].nick() {
                Some(s) => *s == sought,
                None => false,
            };
            if hit {
                proof {
                    crate::text::lemma_vec_deep_view(&self.clients);
                    assert(self.nicks()[k as int] == nick@);
                }
                self.clients.remove(k);
                proof {
                    crate::text::lemma_vec_deep_view(&self.clients);
                    assert(self.records() =~~= old(self).records().remove(k as int));
                    assert(self.nicks() =~~= old(self).nicks().remove(k as int));
                    let olds = old(self).nicks();
                    let news = self.nicks();
                    assert(forall|j: int| 0 <= j < k ==> news[j] == olds[j]);
                    assert(forall|j: int|
                        k <= j < news.len() ==> #[trigger] news[j] == olds[j + 1]);
                    assert(news.no_duplicates());
                    assert(!news.contains(nick@)) by {
                        if news.contains(nick@) {
                            let i = choose|i: int| 0 <= i < news.len() && news[i] == nick@;
                            if i < k {
                            } else {
                                assert(olds[i + 1] == nick@);
                                assert(olds[k as int] == nick@);
                            }
                        }
                    }
                    assert(forall|m: Seq<char>|
                        m != nick@ ==> news.contains(m) == olds.contains(m)) by {
                        assert(forall|m: Seq<char>| news.contains(m) ==> olds.contains(m)) by {
                            assert(forall|i: int|
                                0 <= i < news.len() ==> olds.contains(#[trigger] news[i])) by {
                                assert(forall|i: int|
                                    0 <= i < news.len() ==> (#[trigger] news[i] == olds[
                                        if i < k {
                                            i
                                        } else {
                                            i + 1
                                        }]));
                            }
                        }
                        assert(forall|m: Seq<char>|
                            m != nick@ && olds.contains(m) ==> news.contains(m)) by {
                            assert(forall|i: int|
                                0 <= i < olds.len() && olds[i] != nick@ ==> news.contains(
                                    #[trigger] olds[i],
                                )) by {
                                assert(forall|i: int|
                                    0 <= i < olds.len() && i != k ==> (#[trigger] olds[i] == news[
                                        if i < k {
                                            i
                                        } else {
                                            i - 1
                                        }]));
                                assert(olds[k as int] == nick@);
                            }
                        }
                    }
                }
                return ;
            }
            k = k + 1;
        }
        proof {
            if self.contains_nick(nick@) {
                let i = choose|i: int| 0 <= i < self.nicks().len() && self.nicks()[i] == nick@;
                assert(self.nicks()[i] == nick@);
            }
        }
    }
}

/// A nickname, once registered, has exactly one entry in the registry:
/// some index carries it, and any two indices that carry it coincide.
pub proof fn lemma_nick_unique(s: &ServerState, n: Seq<char>)
    requires
        s.wf(),
        s.contains_nick(n),
    ensures
        exists|i: int| 0 <= i < s.nicks().len() && s.nicks()[i] == n,
        forall|i: int, j: int|
            (0 <= i < s.nicks().len() && 0 <= j < s.nicks().len() && #[trigger] s.nicks()[i] == n
                && #[trigger] s.nicks()[j] == n) ==> i == j,
{
    let i = choose|i: int| 0 <= i < s.nicks().len() && s.nicks()[i] == n;
    assert(s.nicks()[i] == n);
}

/// What a connection has gathered before registration completes.
#[derive(Debug)]
pub struct Pending {
    pub password: Option<String>,
    pub nick: Option<String>,
}

impl Pending {
    /// A fresh connection: nothing gathered yet.
    pub fn new() -> (r: Pending)
        ensures
            r.password is None,
            r.nick is None,
    {
        Pending { password: None, nick: None }
    }
}

/// What the registration state machine asks of its surroundings for one
/// inbound command.
#[derive(Debug)]
pub enum RegAction {
    /// Nothing to do: the command was absorbed or ignored.
    Continue,
    /// A nickname was proposed: check it against the registry, then report
    /// the outcome through `on_nick_checked`.
    CheckNick(String),
    /// The final registration step: user and real name, to be completed
    /// under the registry's write lock through `register_client`.
    TryRegister(String, String),
    /// Reply to the client and stay unregistered.
    Reply(Response),
}

/// One step of the registration state machine: `PASS` stores the password;
/// `NICK` asks for a registry check; `USER` asks for atomic registration;
/// `PING` and `PONG` pass; everything else is refused as unregistered.
pub fn registration_step(pending: &mut Pending, cmd: &Command) -> (r: RegAction)
    ensures
        match cmd@ {
            CommandV::Pass(p) => r is Continue && (final (pending).password matches Some(s) && s@
                == p) && final (pending).nick == old(pending).nick,
            CommandV::Nick(n, _) => (r matches RegAction::CheckNick(s) && s@ == n) && *final (
            pending) == *old(pending),
            CommandV::User(u, _, _, rl) => (r matches RegAction::TryRegister(u2, r2) && u2@ == u
                && r2@ == rl) && *final (pending) == *old(pending),
            CommandV::Ping(_, _) => r is Continue && *final (pending) == *old(pending),
            CommandV::Pong(_, _) => r is Continue && *final (pending) == *old(pending),
            _ => (r matches RegAction::Reply(resp) && resp@ == ResponseV::NotRegistered) && *final (
            pending) == *old(pending),
        },
{
    match cmd {
        Command::PASS(p) => {
            pending.password = Some(p.clone());
            RegAction::Continue
        },
        Command::NICK(n, _) => RegAction::CheckNick(n.clone()),
        Command::USER(u, _, _, rl) => RegAction::TryRegister(u.clone(), rl.clone()),
        Command::PING(_, _) => RegAction::Continue,
        Command::PONG(_, _) => RegAction::Continue,
        _ => RegAction::Reply(Response::ErrNotRegistered),
    }
}

/// The outcome of a nickname check: a taken nickname is refused with the
/// collision reply and nothing is stored; a free one is remembered as the
/// chosen nickname.
pub fn on_nick_checked(pending: &mut Pending, nickname: &str, taken: bool) -> (r: Option<Response>)
    ensures
        final (pending).password == old(pending).password,
        if taken {
            (r matches Some(resp) && resp@ == ResponseV::NickCollision(nickname@)) && final (
            pending).nick == old(pending).nick
        } else {
            r is None && (final (pending).nick matches Some(s) && s@ == nickname@)
        },
{
    if taken {
        Some(Response::ErrNickCollision(String::from_str(nickname)))
    } else {
        pending.nick = Some(String::from_str(nickname));
        None
    }
}

/// The server: shared state, the configured bind points, and the lifecycle
/// phase that guards them.
#[derive(Debug)]
pub struct Server {
    pub state: ServerState,
    pub listeners: Vec<crate::config::Listener>,
    pub phase: ServerPhase,
}

impl Server {
    /// A server in its startup phase with no listeners.
    pub fn new(hostname: String) -> (r: Server)
        ensures
            r.state.wf(),
            r.state.name() == hostname@,
            r.state.nicks() == Seq::<Seq<char>>::empty(),
            r.listeners@.len() == 0,
            r.phase_of() == ServerPhase::Startup,
    {
        Server { state: ServerState::new(hostname), listeners: Vec::new(), phase: ServerPhase::Startup }
    }

    /// The current lifecycle phase.
    pub open spec fn phase_of(&self) -> ServerPhase {
        self.phase
    }

    /// Adds a bind point; legal only during startup.
    pub fn add_listener(&mut self, listener: crate::config::Listener) -> (r: Result<
        (),
        ServerError,
    >)
        ensures
            final (self).phase_of() == old(self).phase_of(),
            final (self).state == old(self).state,
            if old(self).phase_of() == ServerPhase::Startup {
                r is Ok && final (self).listeners@ == old(self).listeners@.push(listener)
            } else {
                (r matches Err(e) && e is ListenerModification) && final (self).listeners@ == old(
                self).listeners@
            },
    {
        if self.phase != ServerPhase::Startup {
            return Err(
                ServerError::ListenerModification(
                    String::from_str("attempt to add listener whilst running"),
                ),
            );
        }
        self.listeners.push(listener);
        Ok(())
    }

    /// Moves the server to a new lifecycle phase.
    pub fn set_phase(&mut self, phase: ServerPhase)
        ensures
            final (self).phase_of() == phase,
            final (self).state == old(self).state,
            final (self).listeners == old(self).listeners,
    {
        self.phase = phase;
    }
}

/// Failures of server startup.
#[derive(Debug)]
pub enum ServerError {
    /// A listener change was attempted outside the startup phase.
    ListenerModification(String),
    /// TLS material could not be used.
    Tls(String),
    /// An error of the underlying sockets.
    Io(std::io::Error),
}

impl From<std::io::Error> for ServerError {
    fn from(e: std::io::Error) -> (r: ServerError) {
        ServerError::Io(e)
    }
}

impl vstd::std_specs::convert::FromSpecImpl<std::io::Error> for ServerError {
    open spec fn obeys_from_spec() -> bool {
        true
    }

    open spec fn from_spec(v: std::io::Error) -> Self {
        ServerError::Io(v)
    }
}

} // verus!
