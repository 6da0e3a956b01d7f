//! The command algebra: typed variants for the known verbs, a parser from
//! a verb and its parameters, and the serializer back to wire text.

use crate::error::MessageParseError;
use crate::text::{find_ch, lemma_find_ch, lemma_vec_deep_view, str_find_char, upper_seq, verb_matches};
use vstd::prelude::*;
use vstd::string::StringExecFns;

verus! {

/// Spec-level model of a command.
pub enum CommandV {
    Pass(Seq<char>),
    Nick(Seq<char>, Option<Seq<char>>),
    User(Seq<char>, Seq<char>, Seq<char>, Seq<char>),
    Ping(Seq<char>, Option<Seq<char>>),
    Pong(Seq<char>, Option<Seq<char>>),
    Privmsg(Seq<char>, Seq<char>, Option<Seq<Seq<char>>>),
    Notice(Seq<char>, Seq<char>),
    Quit(Option<Seq<char>>),
    Raw(Seq<char>, Seq<Seq<char>>),
}

/// A parsed command. Each variant carries exactly the parameter shape its
/// verb requires; verbs outside the table are kept as `RAW`.
#[derive(Clone, PartialEq, Debug)]
pub enum Command {
    /// Registration password.
    PASS(String),
    /// Nickname and optional hop count.
    NICK(String, Option<String>),
    /// User, host, server, real name: the final registration step.
    USER(String, String, String, String),
    /// Liveness probe: target and optional second target.
    PING(String, Option<String>),
    /// Liveness answer: source and optional second target.
    PONG(String, Option<String>),
    /// Recipient, text, and any extra recipients split off a comma list.
    PRIVMSG(String, String, Option<Vec<String>>),
    /// Recipient and text.
    NOTICE(String, String),
    /// Optional parting reason.
    QUIT(Option<String>),
    /// An unknown verb with its parameters, kept as they came.
    RAW(String, Vec<String>),
}

impl View for Command {
    type V = CommandV;

    open spec fn view(&self) -> CommandV {
        match self {
            Command::PASS(p) => CommandV::Pass(p@),
            Command::NICK(n, h) => CommandV::Nick(n@, h.deep_view()),
            Command::USER(u, h, s, r) => CommandV::User(u@, h@, s@, r@),
            Command::PING(a, b) => CommandV::Ping(a@, b.deep_view()),
            Command::PONG(a, b) => CommandV::Pong(a@, b.deep_view()),
            Command::PRIVMSG(r, m, cc) => CommandV::Privmsg(r@, m@, cc.deep_view()),
            Command::NOTICE(n, m) => CommandV::Notice(n@, m@),
            Command::QUIT(r) => CommandV::Quit(r.deep_view()),
            Command::RAW(v, args) => CommandV::Raw(v@, args.deep_view()),
        }
    }
}

/// Split at every comma; always yields at least one part.
pub open spec fn split_commas(s: Seq<char>) -> Seq<Seq<char>>
    decreases s.len(),
    via split_commas_decreases
{
    match find_ch(s, ',') {
        None => seq![s],
        Some(i) => seq![s.take(i)] + split_commas(s.skip(i + 1)),
    }
}

#[via_fn]
proof fn split_commas_decreases(s: Seq<char>) {
    lemma_find_ch(s, ',');
}

/// Join with commas; inverse of `split_commas` on comma-free parts.
pub open spec fn join_commas(parts: Seq<Seq<char>>) -> Seq<char>
    decreases parts.len(),
{
    if parts.len() == 0 {
        Seq::empty()
    } else if parts.len() == 1 {
        parts[0]
    } else {
        parts[0] + ","@ + join_commas(parts.drop_first())
    }
}

/// Join with single spaces.
pub open spec fn join_sp(parts: Seq<Seq<char>>) -> Seq<char>
    decreases parts.len(),
{
    if parts.len() == 0 {
        Seq::empty()
    } else if parts.len() == 1 {
        parts[0]
    } else {
        parts[0] + " "@ + join_sp(parts.drop_first())
    }
}

/// Split at spaces into at most `n` parts; the last part keeps any further
/// spaces.
pub open spec fn splitn_sp(s: Seq<char>, n: nat) -> Seq<Seq<char>>
    decreases n,
{
    if n <= 1 {
        seq![s]
    } else {
        match find_ch(s, ' ') {
            None => seq![s],
            Some(i) => seq![s.take(i)] + splitn_sp(s.skip(i + 1), (n - 1) as nat),
        }
    }
}

/// A middle parameter as it can stand on the wire: nonempty, free of
/// spaces, not beginning with a colon.
pub open spec fn is_token(t: Seq<char>) -> bool {
    t.len() > 0 && find_ch(t, ' ') is None && t[0] != ':'
}

/// The commands whose wire text reads back as the same command: every
/// parameter but the last is a token, and a private message's recipients
/// are free of commas and spaces, with at least one extra recipient when
/// the extra list is present.
pub open spec fn valid_command(c: CommandV) -> bool {
    match c {
        CommandV::Pass(_) => true,
        CommandV::Nick(n, h) => h is Some ==> is_token(n),
        CommandV::User(u, h, s, _) => is_token(u) && is_token(h) && is_token(s),
        CommandV::Ping(a, b) => b is Some ==> is_token(a),
        CommandV::Pong(a, b) => b is Some ==> is_token(a),
        CommandV::Privmsg(r, _, cc) => match cc {
            None => is_token(r) && find_ch(r, ',') is None,
            Some(ccs) => ccs.len() > 0 && find_ch(r, ' ') is None && find_ch(r, ',') is None && (
            r.len() > 0 ==> r[0] != ':') && (forall|i: int|
                0 <= i < ccs.len() ==> find_ch(#[trigger] ccs[i], ' ') is None && find_ch(
                    ccs[i],
                    ',',
                ) is None),
        },
        CommandV::Notice(n, _) => is_token(n),
        CommandV::Quit(_) => true,
        CommandV::Raw(_, _) => false,
    }
}

/// Drop empty parts.
pub open spec fn filter_nonempty(parts: Seq<Seq<char>>) -> Seq<Seq<char>> {
    parts.filter(|t: Seq<char>| t.len() > 0)
}

/// How a command variant is chosen from a verb (matched case-insensitively)
/// and its parameter list. Unknown verbs become `Raw`; known verbs outside
/// their arity fail.
pub open spec fn spec_command_new(verb: Seq<char>, args: Seq<Seq<char>>) -> Result<
    CommandV,
    MessageParseError,
> {
    let uv = upper_seq(verb);
    if uv == "PASS"@ {
        if args.len() == 1 {
            Ok(CommandV::Pass(args[0]))
        } else {
            Err(MessageParseError::InvalidArgumentCount)
        }
    } else if uv == "NICK"@ {
        if args.len() == 1 {
            Ok(CommandV::Nick(args[0], None))
        } else if args.len() == 2 {
            Ok(CommandV::Nick(args[0], Some(args[1])))
        } else {
            Err(MessageParseError::InvalidArgumentCount)
        }
    } else if uv == "USER"@ {
        if args.len() == 4 {
            Ok(CommandV::User(args[0], args[1], args[2], args[3]))
        } else {
            Err(MessageParseError::InvalidArgumentCount)
        }
    } else if uv == "PING"@ {
        if args.len() == 1 {
            Ok(CommandV::Ping(args[0], None))
        } else if args.len() == 2 {
            Ok(CommandV::Ping(args[0], Some(args[1])))
        } else {
            Err(MessageParseError::InvalidArgumentCount)
        }
    } else if uv == "PONG"@ {
        if args.len() == 1 {
            Ok(CommandV::Pong(args[0], None))
        } else if args.len() == 2 {
            Ok(CommandV::Pong(args[0], Some(args[1])))
        } else {
            Err(MessageParseError::InvalidArgumentCount)
        }
    } else if uv == "PRIVMSG"@ {
        if args.len() == 2 {
            if find_ch(args[0], ',') is Some {
                let parts = split_commas(args[0]);
                Ok(CommandV::Privmsg(parts[0], args[1], Some(parts.drop_first())))
            } else {
                Ok(CommandV::Privmsg(args[0], args[1], None))
            }
        } else {
            Err(MessageParseError::InvalidArgumentCount)
        }
    } else if uv == "NOTICE"@ {
        if args.len() == 2 {
            Ok(CommandV::Notice(args[0], args[1]))
        } else {
            Err(MessageParseError::InvalidArgumentCount)
        }
    } else if uv == "QUIT"@ {
        if args.len() == 0 {
            Ok(CommandV::Quit(None))
        } else if args.len() == 1 {
            Ok(CommandV::Quit(Some(args[0])))
        } else {
            Err(MessageParseError::InvalidArgumentCount)
        }
    } else {
        Ok(CommandV::Raw(verb, args))
    }
}

/// The verb and flat parameter list a command serializes to.
pub open spec fn spec_command_parts(c: CommandV) -> (Seq<char>, Seq<Seq<char>>) {
    match c {
        CommandV::Pass(p) => ("PASS"@, seq![p]),
        CommandV::Nick(n, None) => ("NICK"@, seq![n]),
        CommandV::Nick(n, Some(h)) => ("NICK"@, seq![n, h]),
        CommandV::User(u, h, s, r) => ("USER"@, seq![u, h, s, r]),
        CommandV::Ping(a, None) => ("PING"@, seq![a]),
        CommandV::Ping(a, Some(b)) => ("PING"@, seq![a, b]),
        CommandV::Pong(a, None) => ("PONG"@, seq![a]),
        CommandV::Pong(a, Some(b)) => ("PONG"@, seq![a, b]),
        CommandV::Privmsg(r, m, None) => ("PRIVMSG"@, seq![r, m]),
        CommandV::Privmsg(r, m, Some(ccs)) => ("PRIVMSG"@, seq![join_commas(seq![r] + ccs), m]),
        CommandV::Notice(n, m) => ("NOTICE"@, seq![n, m]),
        CommandV::Quit(None) => ("QUIT"@, Seq::empty()),
        CommandV::Quit(Some(r)) => ("QUIT"@, seq![r]),
        CommandV::Raw(v, args) => (v, args),
    }
}

/// The wire text of a verb with its parameters: space-separated middles,
/// then the final parameter, colon-prefixed when it is empty, holds a
/// space, or begins with a colon.
pub open spec fn spec_stringify(cmd: Seq<char>, args: Seq<Seq<char>>) -> Seq<char> {
    if args.len() == 0 {
        cmd
    } else {
        let mids = args.drop_last();
        let sfx = args.last();
        let joined = join_sp(mids);
        let sp: Seq<char> = if joined.len() == 0 {
            Seq::empty()
        } else {
            " "@
        };
        let co: Seq<char> = if sfx.len() == 0 || find_ch(sfx, ' ') is Some || sfx[0] == ':' {
            ":"@
        } else {
            Seq::empty()
        };
        cmd + sp + joined + " "@ + co + sfx
    }
}

/// The full wire text (without terminator) of a command.
pub open spec fn spec_serialize_command(c: CommandV) -> Seq<char> {
    spec_stringify(spec_command_parts(c).0, spec_command_parts(c).1)
}

/// How a line (already stripped of any prefix) splits into a verb and its
/// parameters: the text after the first space-colon pair is the trailing
/// parameter; the first space-separated word is the verb; the rest splits
/// into at most fourteen middle parameters with empty ones discarded; the
/// trailing parameter, if any, comes last.
pub open spec fn spec_split_command(s: Seq<char>) -> Result<
    (Seq<char>, Seq<Seq<char>>),
    MessageParseError,
> {
    let (trailing, head) = match find_sp_colon_of(s) {
        None => (None::<Seq<char>>, s),
        Some(i) => (Some(s.skip(i + 2)), s.take(i + 1)),
    };
    match find_ch(head, ' ') {
        Some(i) => {
            let verb = head.take(i);
            let params = head.skip(i + 1);
            let mids = filter_nonempty(splitn_sp(params, 14));
            Ok(
                (
                    verb,
                    match trailing {
                        None => mids,
                        Some(tr) => mids.push(tr),
                    },
                ),
            )
        },
        None => {
            if head.len() > 0 && head[0] == ':' {
                Err(MessageParseError::InvalidCommand)
            } else {
                Ok(
                    (
                        head,
                        match trailing {
                            None => Seq::empty(),
                            Some(tr) => seq![tr],
                        },
                    ),
                )
            }
        },
    }
}

/// Alias so the split above reads uniformly.
pub open spec fn find_sp_colon_of(s: Seq<char>) -> Option<int> {
    crate::text::find_sp_colon(s)
}

impl Command {
    /// Builds a private message; extra recipients join the first parameter
    /// as a comma list on the wire.
    #[allow(non_snake_case)]
    pub fn Privmsg(nick: &str, message: &str, cc: Option<Vec<String>>) -> (r: Command)
        ensures
            r@ == CommandV::Privmsg(nick@, message@, cc.deep_view()),
    {
        Command::PRIVMSG(String::from_str(nick), String::from_str(message), cc)
    }

    /// Builds a notice.
    #[allow(non_snake_case)]
    pub fn Notice(nick: &str, message: &str) -> (r: Command)
        ensures
            r@ == CommandV::Notice(nick@, message@),
    {
        Command::NOTICE(String::from_str(nick), String::from_str(message))
    }

    /// Builds a liveness probe.
    #[allow(non_snake_case)]
    pub fn Ping(target: &str, target2: Option<String>) -> (r: Command)
        ensures
            r@ == CommandV::Ping(target@, target2.deep_view()),
    {
        Command::PING(String::from_str(target), target2)
    }

    /// Builds a liveness answer.
    #[allow(non_snake_case)]
    pub fn Pong(target: &str, target2: Option<String>) -> (r: Command)
        ensures
            r@ == CommandV::Pong(target@, target2.deep_view()),
    {
        Command::PONG(String::from_str(target), target2)
    }

    /// Keeps an unknown verb with its parameters.
    #[allow(non_snake_case)]
    pub fn Raw(verb: &str, args: Vec<String>) -> (r: Command)
        ensures
            r@ == CommandV::Raw(verb@, args.deep_view()),
    {
        Command::RAW(String::from_str(verb), args)
    }

    /// Chooses the variant for a verb and its parameters, as
    /// `spec_command_new` says.
    pub fn new(command: &str, args: Vec<&str>) -> (r: Result<Command, MessageParseError>)
        ensures
            match spec_command_new(command@, args.deep_view()) {
                Ok(c) => r is Ok && r->Ok_0@ == c,
                Err(e) => r == Err::<Command, MessageParseError>(e),
            },
    {
        let n = args.len();
        if verb_matches(command, "PASS") {
            if n == 1 {
                Ok(Command::PASS(String::from_str(args[0])))
            } else {
                Err(MessageParseError::InvalidArgumentCount)
            }
        } else if verb_matches(command, "NICK") {
            if n == 1 {
                Ok(Command::NICK(String::from_str(args[0]), None))
            } else if n == 2 {
                Ok(Command::NICK(String::from_str(args[0]), Some(String::from_str(args[1]))))
            } else {
                Err(MessageParseError::InvalidArgumentCount)
            }
        } else if verb_matches(command, "USER") {
            if n == 4 {
                Ok(
                    Command::USER(
                        String::from_str(args[0]),
                        String::from_str(args[1]),
                        String::from_str(args[2]),
                        String::from_str(args[3]),
                    ),
                )
            } else {
                Err(MessageParseError::InvalidArgumentCount)
            }
        } else if verb_matches(command, "PING") {
            if n == 1 {
                Ok(Command::PING(String::from_str(args[0]), None))
            } else if n == 2 {
                Ok(Command::PING(String::from_str(args[0]), Some(String::from_str(args[1]))))
            } else {
                Err(MessageParseError::InvalidArgumentCount)
            }
        } else if verb_matches(command, "PONG") {
            if n == 1 {
                Ok(Command::PONG(String::from_str(args[0]), None))
            } else if n == 2 {
                Ok(Command::PONG(String::from_str(args[0]), Some(String::from_str(args[1]))))
            } else {
                Err(MessageParseError::InvalidArgumentCount)
            }
        } else if verb_matches(command, "PRIVMSG") {
            if n == 2 {
                if str_find_char(args[0], ',').is_some() {
                    let mut parts = split_commas_exec(args[0]);
                    proof {
                        assert(parts.deep_view().len() >= 1) by {
                            lemma_split_commas_len(args[0]@);
                        }
                    }
                    let first = parts.remove(0);
                    proof {
                        assert(parts.deep_view() =~~= split_commas(args[0]@).drop_first());
                    }
                    Ok(Command::PRIVMSG(first, String::from_str(args[1]), Some(parts)))
                } else {
                    Ok(Command::PRIVMSG(String::from_str(args[0]), String::from_str(args[1]), None))
                }
            } else {
                Err(MessageParseError::InvalidArgumentCount)
            }
        } else if verb_matches(command, "NOTICE") {
            if n == 2 {
                Ok(Command::NOTICE(String::from_str(args[0]), String::from_str(args[1])))
            } else {
                Err(MessageParseError::InvalidArgumentCount)
            }
        } else if verb_matches(command, "QUIT") {
            if n == 0 {
                Ok(Command::QUIT(None))
            } else if n == 1 {
                Ok(Command::QUIT(Some(String::from_str(args[0]))))
            } else {
                Err(MessageParseError::InvalidArgumentCount)
            }
        } else {
            let mut owned: Vec<String> = Vec::new();
            let mut k: usize = 0;
            while k < n
                invariant
                    0 <= k <= n,
                    n == args@.len(),
                    owned@.len() == k,
                    forall|i: int| 0 <= i < k ==> (#[trigger] owned@[i])@ == args@[i]@,
                decreases n - k,
            {
                owned.push(String::from_str(args[k]));
                k = k + 1;
            }
            proof {
                lemma_vec_deep_view(&owned);
                lemma_vec_deep_view(&args);
                assert(owned.deep_view() =~~= args.deep_view());
            }
            Ok(Command::RAW(String::from_str(command), owned))
        }
    }

    /// Serializes the command to its wire text (without terminator).
    pub fn to_string(&self) -> (r: String)
        ensures
            r@ == spec_serialize_command(self@),
    {
        match self {
            Command::PASS(p) => {
                let args = vec![p.clone()];
                proof {
                    lemma_vec_deep_view(&args);
                    assert(args.deep_view() =~~= seq![p@]);
                }
                stringify("PASS", &args)
            },
            Command::NICK(n, None) => {
                let args = vec![n.clone()];
                proof {
                    lemma_vec_deep_view(&args);
                    assert(args.deep_view() =~~= seq![n@]);
                }
                stringify("NICK", &args)
            },
            Command::NICK(n, Some(h)) => {
                let args = vec![n.clone(), h.clone()];
                proof {
                    lemma_vec_deep_view(&args);
                    assert(args.deep_view() =~~= seq![n@, h@]);
                }
                stringify("NICK", &args)
            },
            Command::USER(u, h, s, r) => {
                let args = vec![u.clone(), h.clone(), s.clone(), r.clone()];
                proof {
                    lemma_vec_deep_view(&args);
                    assert(args.deep_view() =~~= seq![u@, h@, s@, r@]);
                }
                stringify("USER", &args)
            },
            Command::PING(a, None) => {
                let args = vec![a.clone()];
                proof {
                    lemma_vec_deep_view(&args);
                    assert(args.deep_view() =~~= seq![a@]);
                }
                stringify("PING", &args)
            },
            Command::PING(a, Some(b)) => {
                let args = vec![a.clone(), b.clone()];
                proof {
                    lemma_vec_deep_view(&args);
                    assert(args.deep_view() =~~= seq![a@, b@]);
                }
                stringify("PING", &args)
            },
            Command::PONG(a, None) => {
                let args = vec![a.clone()];
                proof {
                    lemma_vec_deep_view(&args);
                    assert(args.deep_view() =~~= seq![a@]);
                }
                stringify("PONG", &args)
            },
            Command::PONG(a, Some(b)) => {
                let args = vec![a.clone(), b.clone()];
                proof {
                    lemma_vec_deep_view(&args);
                    assert(args.deep_view() =~~= seq![a@, b@]);
                }
                stringify("PONG", &args)
            },
            Command::PRIVMSG(rc, m, None) => {
                let args = vec![rc.clone(), m.clone()];
                proof {
                    lemma_vec_deep_view(&args);
                    assert(args.deep_view() =~~= seq![rc@, m@]);
                }
                stringify("PRIVMSG", &args)
            },
            Command::PRIVMSG(rc, m, Some(ccs)) => {
                let mut list = vec![rc.clone()];
                let mut k: usize = 0;
                let e = ccs.len();
                while k < e
                    invariant
                        0 <= k <= e,
                        e == ccs@.len(),
                        list@.len() == k + 1,
                        list@[0]@ == rc@,
                        forall|i: int| 1 <= i < k + 1 ==> (#[trigger] list@[i])@ == ccs@[i - 1]@,
                    decreases e - k,
                {
                    list.push(ccs[k].clone());
                    k = k + 1;
                }
                proof {
                    lemma_vec_deep_view(&list);
                    lemma_vec_deep_view(ccs);
                    assert(list.deep_view() =~~= seq![rc@] + ccs.deep_view());
                }
                let combined = join_commas_exec(&list);
                let args = vec![combined, m.clone()];
                proof {
                    lemma_vec_deep_view(&args);
                    assert(args.deep_view() =~~= seq![
                        join_commas(seq![rc@] + ccs.deep_view()),
                        m@,
                    ]);
                }
                stringify("PRIVMSG", &args)
            },
            Command::NOTICE(n, m) => {
                let args = vec![n.clone(), m.clone()];
                proof {
                    lemma_vec_deep_view(&args);
                    assert(args.deep_view() =~~= seq![n@, m@]);
                }
                stringify("NOTICE", &args)
            },
            Command::QUIT(None) => {
                let args: Vec<String> = Vec::new();
                proof {
                    lemma_vec_deep_view(&args);
                    assert(args.deep_view() =~~= Seq::<Seq<char>>::empty());
                }
                stringify("QUIT", &args)
            },
            Command::QUIT(Some(rr)) => {
                let args = vec![rr.clone()];
                proof {
                    lemma_vec_deep_view(&args);
                    assert(args.deep_view() =~~= seq![rr@]);
                }
                stringify("QUIT", &args)
            },
            Command::RAW(v, args) => stringify(v.as_str(), args),
        }
    }
}

/// Length of a comma split: one part per comma, plus one.
pub proof fn lemma_split_commas_len(s: Seq<char>)
    ensures
        split_commas(s).len() >= 1,
    decreases s.len(),
{
    lemma_find_ch(s, ',');
    match find_ch(s, ',') {
        None => {},
        Some(i) => {
            lemma_split_commas_len(s.skip(i + 1));
        },
    }
}

/// Splits a string at every comma into owned parts.
pub fn split_commas_exec(s: &str) -> (r: Vec<String>)
    ensures
        r.deep_view() == split_commas(s@),
    decreases s@.len(),
{
    let n = s.unicode_len();
    match str_find_char(s, ',') {
        None => {
            let r = vec![String::from_str(s)];
            proof {
                assert(r.deep_view() =~~= split_commas(s@));
            }
            r
        },
        Some(i) => {
            proof {
                lemma_find_ch(s@, ',');
            }
            let head = String::from_str(s.substring_char(0, i));
            let rest = s.substring_char(i + 1, n);
            proof {
                assert(s@.subrange(0, i as int) =~= s@.take(i as int));
                assert(s@.subrange(i + 1, n as int) =~= s@.skip(i + 1));
            }
            let mut parts = split_commas_exec(rest);
            parts.insert(0, head);
            proof {
                assert(parts.deep_view() =~~= split_commas(s@));
            }
            parts
        },
    }
}

/// Joins parts with commas.
pub fn join_commas_exec(parts: &Vec<String>) -> (r: String)
    ensures
        r@ == join_commas(parts.deep_view()),
{
    let n = parts.len();
    if n == 0 {
        let r = String::new();
        proof {
            assert(r@ =~= join_commas(parts.deep_view()));
        }
        return r;
    }
    let mut acc = parts[n - 1].clone();
    proof {
        assert(parts.deep_view().skip(n - 1) =~~= seq![parts@[n - 1]@]);
    }
    let mut k: usize = n - 1;
    while k > 0
        invariant
            0 <= k <= n - 1,
            n == parts@.len(),
            n >= 1,
            acc@ == join_commas(parts.deep_view().skip(k as int)),
        decreases k,
    {
        let mut t = parts[k - 1].clone();
        t.append(",");
        t.append(acc.as_str());
        proof {
            reveal_strlit(",");
            assert(parts.deep_view().skip(k - 1).drop_first() =~~= parts.deep_view().skip(
                k as int,
            ));
            assert(parts.deep_view().skip(k - 1).len() >= 2);
            assert(parts.deep_view().skip(k - 1)[0] == parts@[k - 1]@);
            assert(t@ =~= join_commas(parts.deep_view().skip(k - 1)));
        }
        acc = t;
        k = k - 1;
    }
    proof {
        assert(parts.deep_view().skip(0) =~~= parts.deep_view());
    }
    acc
}

/// Joins parts with single spaces.
pub fn join_sp_exec(parts: &Vec<String>) -> (r: String)
    ensures
        r@ == join_sp(parts.deep_view()),
{
    let n = parts.len();
    if n == 0 {
        let r = String::new();
        proof {
            assert(r@ =~= join_sp(parts.deep_view()));
        }
        return r;
    }
    let mut acc = parts[n - 1].clone();
    proof {
        assert(parts.deep_view().skip(n - 1) =~~= seq![parts@[n - 1]@]);
    }
    let mut k: usize = n - 1;
    while k > 0
        invariant
            0 <= k <= n - 1,
            n == parts@.len(),
            n >= 1,
            acc@ == join_sp(parts.deep_view().skip(k as int)),
        decreases k,
    {
        let mut t = parts[k - 1].clone();
        t.append(" ");
        t.append(acc.as_str());
        proof {
            reveal_strlit(" ");
            assert(parts.deep_view().skip(k - 1).drop_first() =~~= parts.deep_view().skip(
                k as int,
            ));
            assert(parts.deep_view().skip(k - 1).len() >= 2);
            assert(parts.deep_view().skip(k - 1)[0] == parts@[k - 1]@);
            assert(t@ =~= join_sp(parts.deep_view().skip(k - 1)));
        }
        acc = t;
        k = k - 1;
    }
    proof {
        assert(parts.deep_view().skip(0) =~~= parts.deep_view());
    }
    acc
}

/// Serializes a verb with its parameters, as `spec_stringify` says.
pub fn stringify(cmd: &str, args: &Vec<String>) -> (r: String)
    ensures
        r@ == spec_stringify(cmd@, args.deep_view()),
{
    let n = args.len();
    if n == 0 {
        return String::from_str(cmd);
    }
    let mut mids: Vec<String> = Vec::new();
    let mut k: usize = 0;
    while k < n - 1
        invariant
            0 <= k <= n - 1,
            n == args@.len(),
            n >= 1,
            mids@.len() == k,
            forall|i: int| 0 <= i < k ==> (#[trigger] mids@[i])@ == args@[i]@,
        decreases n - 1 - k,
    {
        mids.push(args[k].clone());
        k = k + 1;
    }
    proof {
        lemma_vec_deep_view(&mids);
        lemma_vec_deep_view(args);
        assert(mids.deep_view() =~~= args.deep_view().drop_last());
    }
    let joined = join_sp_exec(&mids);
    let sfx = &args[n - 1];
    proof {
        assert(args.deep_view().last() == args@[n - 1]@);
    }
    let needs_colon = sfx.as_str().unicode_len() == 0 || str_find_char(sfx.as_str(), ' ').is_some()
        || sfx.as_str().get_char(0) == ':';
    let mut out = String::from_str(cmd);
    if joined.as_str().unicode_len() > 0 {
        out.append(" ");
    }
    out.append(joined.as_str());
    out.append(" ");
    if needs_colon {
        out.append(":");
    }
    out.append(sfx.as_str());
    proof {
        reveal_strlit(" ");
        reveal_strlit(":");
        assert(out@ =~= spec_stringify(cmd@, args.deep_view()));
    }
    out
}

} // verus!
