//! Message source identifiers: `nick!user@host`, a server host, or a raw
//! string kept as it came.

use crate::text::{find_ch, lemma_find_ch, lemma_find_ch_append, str_find_char};
use vstd::prelude::*;
use vstd::string::StringExecFns;

verus! {

/// Spec-level model of a prefix.
pub enum PrefixV {
    Server(Seq<char>),
    User { nick: Seq<char>, user: Option<Seq<char>>, host: Option<Seq<char>> },
    Raw(Seq<char>),
}

/// The optional source at the start of a wire line, introduced by `:`.
#[derive(Clone, PartialEq, Debug)]
pub enum Prefix {
    /// A server host (the string contains a dot).
    Server(String),
    /// A user source: nickname with optional user and host parts.
    User { nick: String, user: Option<String>, host: Option<String> },
    /// An unparsed prefix kept verbatim.
    Raw(String),
}

impl View for Prefix {
    type V = PrefixV;

    open spec fn view(&self) -> PrefixV {
        match self {
            Prefix::Server(h) => PrefixV::Server(h@),
            Prefix::User { nick, user, host } => PrefixV::User {
                nick: nick@,
                user: match user {
                    Some(u) => Some(u@),
                    None => None,
                },
                host: match host {
                    Some(h) => Some(h@),
                    None => None,
                },
            },
            Prefix::Raw(s) => PrefixV::Raw(s@),
        }
    }
}

/// How a prefix string is read: a `!` splits nick from user (and a `@` in
/// the remainder splits user from host); otherwise a dot marks a server
/// host; otherwise the whole string is a bare nickname.
pub open spec fn spec_parse_prefix(s: Seq<char>) -> PrefixV {
    match find_ch(s, '!') {
        Some(i) => {
            let nick = s.take(i);
            let rest = s.skip(i + 1);
            match find_ch(rest, '@') {
                Some(j) => PrefixV::User {
                    nick: nick,
                    user: Some(rest.take(j)),
                    host: Some(rest.skip(j + 1)),
                },
                None => PrefixV::User { nick: nick, user: Some(rest), host: None },
            }
        },
        None => if find_ch(s, '.') is Some {
            PrefixV::Server(s)
        } else {
            PrefixV::User { nick: s, user: None, host: None }
        },
    }
}

/// The serialized text of a prefix, omitting absent fields with their
/// separators.
pub open spec fn spec_prefix_text(p: PrefixV) -> Seq<char> {
    match p {
        PrefixV::Server(h) => h,
        PrefixV::User { nick, user, host } => {
            let with_user = match user {
                Some(u) => nick + "!"@ + u,
                None => nick,
            };
            match host {
                Some(h) => with_user + "@"@ + h,
                None => with_user,
            }
        },
        PrefixV::Raw(s) => s,
    }
}

/// The prefixes whose serialized text reads back as the same prefix: a
/// server host with a dot and no `!`, or a user whose nickname is free of
/// the separators (and, for a bare nickname, of dots), with no host part
/// unless a user part is present.
pub open spec fn valid_prefix(p: PrefixV) -> bool {
    match p {
        PrefixV::Server(h) => find_ch(h, '!') is None && find_ch(h, '.') is Some,
        PrefixV::User { nick, user, host } => find_ch(nick, '!') is None && match (user, host) {
            (None, None) => find_ch(nick, '.') is None,
            (Some(u), None) => find_ch(u, '@') is None,
            (Some(u), Some(_)) => find_ch(u, '!') is None && find_ch(u, '@') is None,
            (None, Some(_)) => false,
        },
        PrefixV::Raw(_) => false,
    }
}

/// Parsing inverts serialization on every valid prefix.
pub proof fn lemma_prefix_round_trip(p: PrefixV)
    requires
        valid_prefix(p),
    ensures
        spec_parse_prefix(spec_prefix_text(p)) == p,
{
    reveal_strlit("!");
    reveal_strlit("@");
    match p {
        PrefixV::Server(h) => {
            lemma_find_ch(h, '!');
            lemma_find_ch(h, '.');
        },
        PrefixV::User { nick, user, host } => {
            match (user, host) {
                (None, None) => {
                    lemma_find_ch(nick, '!');
                    lemma_find_ch(nick, '.');
                },
                (Some(u), None) => {
                    let t = nick + "!"@ + u;
                    lemma_find_ch_append(nick + "!"@, u, '!');
                    lemma_find_ch_append(nick, "!"@, '!');
                    lemma_find_ch(u, '@');
                    assert(find_ch(t, '!') == Some(nick.len() as int));
                    assert(t.take(nick.len() as int) =~= nick);
                    assert(t.skip(nick.len() as int + 1) =~= u);
                },
                (Some(u), Some(h)) => {
                    let t = nick + "!"@ + u + "@"@ + h;
                    lemma_find_ch_append(nick + "!"@ + u + "@"@, h, '!');
                    lemma_find_ch_append(nick + "!"@ + u, "@"@, '!');
                    lemma_find_ch_append(nick + "!"@, u, '!');
                    lemma_find_ch_append(nick, "!"@, '!');
                    assert(find_ch(t, '!') == Some(nick.len() as int));
                    assert(t.take(nick.len() as int) =~= nick);
                    let rest = t.skip(nick.len() as int + 1);
                    assert(rest =~= u + "@"@ + h);
                    lemma_find_ch_append(u + "@"@, h, '@');
                    lemma_find_ch_append(u, "@"@, '@');
                    assert(find_ch(rest, '@') == Some(u.len() as int));
                    assert(rest.take(u.len() as int) =~= u);
                    assert(rest.skip(u.len() as int + 1) =~= h);
                },
                (None, Some(_)) => {},
            }
        },
        PrefixV::Raw(_) => {},
    }
}

impl Prefix {
    /// Reads a prefix from its wire text (without the leading `:`).
    pub fn parse(s: &str) -> (r: Prefix)
        ensures
            r@ == spec_parse_prefix(s@),
    {
        let n = s.unicode_len();
        match str_find_char(s, '!') {
            Some(i) => {
                proof {
                    lemma_find_ch(s@, '!');
                }
                let nick = String::from_str(s.substring_char(0, i));
                let rest = s.substring_char(i + 1, n);
                proof {
                    assert(s@.subrange(0, i as int) =~= s@.take(i as int));
                    assert(s@.subrange(i + 1, n as int) =~= s@.skip(i + 1));
                }
                let m = rest.unicode_len();
                match str_find_char(rest, '@') {
                    Some(j) => {
                        proof {
                            lemma_find_ch(rest@, '@');
                        }
                        let user = String::from_str(rest.substring_char(0, j));
                        let host = String::from_str(rest.substring_char(j + 1, m));
                        proof {
                            assert(rest@.subrange(0, j as int) =~= rest@.take(j as int));
                            assert(rest@.subrange(j + 1, m as int) =~= rest@.skip(j + 1));
                        }
                        Prefix::User { nick, user: Some(user), host: Some(host) }
                    },
                    None => Prefix::User {
                        nick,
                        user: Some(String::from_str(rest)),
                        host: None,
                    },
                }
            },
            None => {
                if str_find_char(s, '.').is_some() {
                    Prefix::Server(String::from_str(s))
                } else {
                    Prefix::User { nick: String::from_str(s), user: None, host: None }
                }
            },
        }
    }

    /// Serializes the prefix (without the leading `:`).
    pub fn to_string(&self) -> (r: String)
        ensures
            r@ == spec_prefix_text(self@),
    {
        match self {
            Prefix::Server(h) => h.clone(),
            Prefix::User { nick, user, host } => {
                let mut s = nick.clone();
                match user {
                    Some(u) => {
                        s.append("!");
                        s.append(u.as_str());
                    },
                    None => {},
                }
                match host {
                    Some(h) => {
                        s.append("@");
                        s.append(h.as_str());
                    },
                    None => {},
                }
                proof {
                    assert(s@ =~= spec_prefix_text(self@));
                }
                s
            },
            Prefix::Raw(s) => s.clone(),
        }
    }
}

} // verus!
