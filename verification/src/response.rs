//! Numeric replies: each variant carries its code and formats a fixed
//! English template.

use vstd::prelude::*;
use vstd::string::StringExecFns;

verus! {

/// Spec-level model of a numeric reply.
pub enum ResponseV {
    NoSuchCommand(Seq<char>),
    NickCollision(Seq<char>),
    NotRegistered,
    NeedMoreParams(Seq<char>),
}

/// A numeric reply sent by the server. The numeric code is part of the
/// serialized text.
#[derive(Clone, PartialEq, Debug)]
pub enum Response {
    /// 421: the verb is not known to the server.
    ErrNoSuchCommand(String),
    /// 436: the nickname is already registered.
    ErrNickCollision(String),
    /// 451: a command other than PASS/NICK/USER/PING/PONG arrived before
    /// registration completed.
    ErrNotRegistered,
    /// 461: a known verb came with too few parameters.
    ErrNeedMoreParams(String),
}

impl View for Response {
    type V = ResponseV;

    open spec fn view(&self) -> ResponseV {
        match self {
            Response::ErrNoSuchCommand(c) => ResponseV::NoSuchCommand(c@),
            Response::ErrNickCollision(n) => ResponseV::NickCollision(n@),
            Response::ErrNotRegistered => ResponseV::NotRegistered,
            Response::ErrNeedMoreParams(c) => ResponseV::NeedMoreParams(c@),
        }
    }
}

/// The wire text of a numeric reply: `<code> <args> :<text>`.
pub open spec fn response_text(r: ResponseV) -> Seq<char> {
    match r {
        ResponseV::NoSuchCommand(c) => "421 "@ + c + " :Unknown command"@,
        ResponseV::NickCollision(n) => "436 "@ + n + " :Nickname collision KILL"@,
        ResponseV::NotRegistered => "451 :You have not registered"@,
        ResponseV::NeedMoreParams(c) => "461 "@ + c + " :Not enough parameters"@,
    }
}

impl Response {
    /// Serializes the reply without a terminator.
    pub fn to_string(&self) -> (r: String)
        ensures
            r@ == response_text(self@),
    {
        match self {
            Response::ErrNoSuchCommand(cmd) => {
                let mut s = String::from_str("421 ");
                s.append(cmd.as_str());
                s.append(" :Unknown command");
                proof {
                    assert(s@ =~= response_text(self@));
                }
                s
            },
            Response::ErrNickCollision(nick) => {
                let mut s = String::from_str("436 ");
                s.append(nick.as_str());
                s.append(" :Nickname collision KILL");
                proof {
                    assert(s@ =~= response_text(self@));
                }
                s
            },
            Response::ErrNotRegistered => String::from_str("451 :You have not registered"),
            Response::ErrNeedMoreParams(cmd) => {
                let mut s = String::from_str("461 ");
                s.append(cmd.as_str());
                s.append(" :Not enough parameters");
                proof {
                    assert(s@ =~= response_text(self@));
                }
                s
            },
        }
    }
}

} // verus!
