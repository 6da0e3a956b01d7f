//! Wire messages: an optional prefix plus either a command or a numeric
//! reply, terminated on the wire by CRLF.

use crate::command::{
    filter_nonempty, spec_command_new, spec_serialize_command, spec_split_command, splitn_sp,
    Command, CommandV,
};
use crate::error::{MessageParseError, ProtocolError};
use crate::prefix::{spec_parse_prefix, spec_prefix_text, Prefix, PrefixV};
use crate::response::{response_text, Response, ResponseV};
use crate::text::{
    find_ch, lemma_find_ch, lemma_find_sp_colon, lemma_vec_deep_view, str_find_char,
    str_find_sp_colon,
};
use vstd::prelude::*;
use vstd::string::StringExecFns;

verus! {

/// Spec-level model of a message body.
pub enum ContentsV {
    Command(CommandV),
    Response(ResponseV),
}

/// Spec-level model of a message.
pub struct MessageV {
    pub prefix: Option<PrefixV>,
    pub contents: ContentsV,
}

/// A message body: a parsed command or a numeric reply.
#[derive(Clone, PartialEq, Debug)]
#[non_exhaustive]
pub enum MessageContents {
    Command(Command),
    Response(Response),
}

/// A wire message.
#[derive(Clone, PartialEq, Debug)]
pub struct Message {
    pub prefix: Option<Prefix>,
    pub contents: MessageContents,
}

impl View for MessageContents {
    type V = ContentsV;

    open spec fn view(&self) -> ContentsV {
        match self {
            MessageContents::Command(c) => ContentsV::Command(c@),
            MessageContents::Response(r) => ContentsV::Response(r@),
        }
    }
}

impl View for Message {
    type V = MessageV;

    open spec fn view(&self) -> MessageV {
        MessageV {
            prefix: match &self.prefix {
                Some(p) => Some(p@),
                None => None,
            },
            contents: self.contents@,
        }
    }
}

/// The serialized body of a message, without prefix or terminator.
pub open spec fn spec_contents_text(c: ContentsV) -> Seq<char> {
    match c {
        ContentsV::Command(c) => spec_serialize_command(c),
        ContentsV::Response(r) => response_text(r),
    }
}

/// The full wire text of a message, CRLF included.
pub open spec fn spec_message_text(m: MessageV) -> Seq<char> {
    let body = spec_contents_text(m.contents) + "\r\n"@;
    match m.prefix {
        None => body,
        Some(p) => ":"@ + spec_prefix_text(p) + " "@ + body,
    }
}

/// How a line (without terminator) is read: an empty line fails; a leading
/// colon introduces a prefix up to the first space; the rest splits into a
/// verb and parameters, and the verb table picks the variant.
pub open spec fn spec_parse_message(s: Seq<char>) -> Result<MessageV, MessageParseError> {
    if s.len() == 0 {
        Err(MessageParseError::EmptyMessage)
    } else {
        let pfx_rest = if s[0] == ':' {
            match find_ch(s, ' ') {
                Some(i) => (Some(spec_parse_prefix(s.subrange(1, i))), s.skip(i + 1)),
                None => (None::<PrefixV>, s),
            }
        } else {
            (None::<PrefixV>, s)
        };
        match spec_split_command(pfx_rest.1) {
            Err(e) => Err(e),
            Ok(va) => match spec_command_new(va.0, va.1) {
                Err(e) => Err(e),
                Ok(c) => Ok(MessageV { prefix: pfx_rest.0, contents: ContentsV::Command(c) }),
            },
        }
    }
}

impl Message {
    /// Builds a command message from a verb and parameters, with an
    /// optional prefix string.
    pub fn new(prefix: Option<&str>, command: &str, args: Vec<&str>) -> (r: Result<
        Message,
        MessageParseError,
    >)
        ensures
            match spec_command_new(command@, args.deep_view()) {
                Ok(c) => r is Ok && r->Ok_0@ == (MessageV {
                    prefix: match prefix {
                        Some(p) => Some(spec_parse_prefix(p@)),
                        None => None,
                    },
                    contents: ContentsV::Command(c),
                }),
                Err(e) => r == Err::<Message, MessageParseError>(e),
            },
    {
        let pfx = match prefix {
            Some(p) => Some(Prefix::parse(p)),
            None => None,
        };
        match Command::new(command, args) {
            Ok(c) => Ok(Message { prefix: pfx, contents: MessageContents::Command(c) }),
            Err(e) => Err(e),
        }
    }

    /// Replaces the prefix with one parsed from the given string.
    pub fn set_prefix(&mut self, pf: &str)
        ensures
            final (self)@ == (MessageV {
                prefix: Some(spec_parse_prefix(pf@)),
                contents: old(self)@.contents,
            }),
    {
        self.prefix = Some(Prefix::parse(pf));
    }

    /// Serializes the message, CRLF included.
    pub fn to_string(&self) -> (r: String)
        ensures
            r@ == spec_message_text(self@),
    {
        let mut ret = String::new();
        match &self.prefix {
            Some(prefix) => {
                ret.append(":");
                let p = prefix.to_string();
                ret.append(p.as_str());
                ret.append(" ");
            },
            None => {},
        }
        let body = self.contents.to_string();
        ret.append(body.as_str());
        proof {
            assert(ret@ =~= spec_message_text(self@));
        }
        ret
    }

    /// Reads a message from a line without its terminator, as
    /// `spec_parse_message` says; failures carry the offending line.
    pub fn parse(s: &str) -> (r: Result<Message, ProtocolError>)
        ensures
            match spec_parse_message(s@) {
                Ok(mv) => r is Ok && r->Ok_0@ == mv,
                Err(e) => r matches Err(ProtocolError::InvalidMessage { string, cause })
                    && string@ == s@ && cause == e,
            },
    {
        let n = s.unicode_len();
        if n == 0 {
            return Err(
                ProtocolError::InvalidMessage {
                    string: String::from_str(s),
                    cause: MessageParseError::EmptyMessage,
                },
            );
        }
        let first: char = s.get_char(0);
        let mut pfx: Option<Prefix> = None;
        let rest: &str = if first == ':' {
            match str_find_char(s, ' ') {
                Some(i) => {
                    proof {
                        lemma_find_ch(s@, ' ');
                        assert(s@.subrange(i + 1, n as int) =~= s@.skip(i + 1));
                    }
                    pfx = Some(Prefix::parse(s.substring_char(1, i)));
                    s.substring_char(i + 1, n)
                },
                None => s,
            }
        } else {
            s
        };
        let m = rest.unicode_len();
        let mut trailing: Option<&str> = None;
        let head: &str = match str_find_sp_colon(rest) {
            Some(i) => {
                proof {
                    lemma_find_sp_colon(rest@);
                    assert(rest@.subrange(i + 2, m as int) =~= rest@.skip(i + 2));
                    assert(rest@.subrange(0, i + 1) =~= rest@.take(i + 1));
                }
                trailing = Some(rest.substring_char(i + 2, m));
                rest.substring_char(0, i + 1)
            },
            None => rest,
        };
        let hl = head.unicode_len();
        let verb: &str;
        let params: &str;
        match str_find_char(head, ' ') {
            Some(i) => {
                proof {
                    lemma_find_ch(head@, ' ');
                    assert(head@.subrange(0, i as int) =~= head@.take(i as int));
                    assert(head@.subrange(i + 1, hl as int) =~= head@.skip(i + 1));
                }
                verb = head.substring_char(0, i);
                params = head.substring_char(i + 1, hl);
            },
            None => {
                if hl > 0 && head.get_char(0) == ':' {
                    return Err(
                        ProtocolError::InvalidMessage {
                            string: String::from_str(s),
                            cause: MessageParseError::InvalidCommand,
                        },
                    );
                }
                verb = head;
                params = "";
                proof {
                    reveal_strlit("");
                    assert(params@ =~= Seq::<char>::empty());
                }
            },
        }
        let pieces = splitn_sp_exec(params, 14);
        let mut args: Vec<&str> = Vec::new();
        let np = pieces.len();
        let mut k: usize = 0;
        while k < np
            invariant
                0 <= k <= np,
                np == pieces@.len(),
                args.deep_view() == filter_nonempty(pieces.deep_view().take(k as int)),
            decreases np - k,
        {
            proof {
                lemma_vec_deep_view(&pieces);
                assert(pieces.deep_view().take(k + 1).drop_last() =~~= pieces.deep_view().take(
                    k as int,
                ));
                assert(pieces.deep_view().take(k + 1).last() == pieces@[k as int]@);
                reveal_with_fuel(Seq::filter, 2);
            }
            let piece = pieces[k];
            if piece.unicode_len() > 0 {
                args.push(piece);
                proof {
                    lemma_vec_deep_view(&args);
                }
            }
            k = k + 1;
            proof {
                assert(args.deep_view() =~~= filter_nonempty(pieces.deep_view().take(k as int)));
            }
        }
        proof {
            lemma_vec_deep_view(&pieces);
            assert(pieces.deep_view().take(np as int) =~~= pieces.deep_view());
        }
        proof {
            if find_ch(head@, ' ') is None {
                reveal_strlit("");
                assert(splitn_sp(params@, 14) =~~= seq![params@]) by {
                    lemma_find_ch(params@, ' ');
                }
                assert(filter_nonempty(seq![Seq::<char>::empty()]) =~~= Seq::<Seq<char>>::empty())
                    by {
                    reveal_with_fuel(Seq::filter, 2);
                    assert(seq![Seq::<char>::empty()].drop_last() =~~= Seq::<Seq<char>>::empty());
                };
            }
        }
        match trailing {
            Some(tr) => {
                args.push(tr);
                proof {
                    lemma_vec_deep_view(&args);
                }
            },
            None => {},
        }
        proof {
            match spec_split_command(rest@) {
                Ok(va) => {
                    assert(va.0 == verb@);
                    assert(va.1 =~~= args.deep_view());
                },
                Err(e) => {
                    assert(false);
                },
            }
        }
        match Command::new(verb, args) {
            Ok(c) => {
                let msg = Message { prefix: pfx, contents: MessageContents::Command(c) };
                Ok(msg)
            },
            Err(e) => Err(
                ProtocolError::InvalidMessage { string: String::from_str(s), cause: e },
            ),
        }
    }
}

impl MessageContents {
    /// Serializes the body and appends the CRLF terminator.
    pub fn to_string(&self) -> (r: String)
        ensures
            r@ == spec_contents_text(self@) + "\r\n"@,
    {
        match self {
            MessageContents::Command(command) => {
                let mut ret = command.to_string();
                ret.append("\r\n");
                ret
            },
            MessageContents::Response(response) => {
                let mut ret = response.to_string();
                ret.append("\r\n");
                ret
            },
        }
    }
}

impl From<Command> for Message {
    fn from(value: Command) -> (r: Message) {
        Message { prefix: None, contents: MessageContents::Command(value) }
    }
}

impl vstd::std_specs::convert::FromSpecImpl<Command> for Message {
    open spec fn obeys_from_spec() -> bool {
        true
    }

    open spec fn from_spec(v: Command) -> Self {
        Message { prefix: None, contents: MessageContents::Command(v) }
    }
}

impl From<Response> for Message {
    fn from(value: Response) -> (r: Message) {
        Message { prefix: None, contents: MessageContents::Response(value) }
    }
}

impl vstd::std_specs::convert::FromSpecImpl<Response> for Message {
    open spec fn obeys_from_spec() -> bool {
        true
    }

    open spec fn from_spec(v: Response) -> Self {
        Message { prefix: None, contents: MessageContents::Response(v) }
    }
}

/// Splits at spaces into at most `n` parts, the last keeping any further
/// spaces, as `splitn_sp` says.
pub fn splitn_sp_exec<'a>(s: &'a str, n: usize) -> (r: Vec<&'a str>)
    requires
        n >= 1,
    ensures
        r.deep_view() == splitn_sp(s@, n as nat),
    decreases n,
{
    let m = s.unicode_len();
    if n == 1 {
        let r = vec![s];
        proof {
            lemma_vec_deep_view(&r);
            assert(r.deep_view() =~~= splitn_sp(s@, n as nat));
        }
        return r;
    }
    match str_find_char(s, ' ') {
        None => {
            let r = vec![s];
            proof {
                lemma_vec_deep_view(&r);
                assert(r.deep_view() =~~= splitn_sp(s@, n as nat));
            }
            r
        },
        Some(i) => {
            proof {
                lemma_find_ch(s@, ' ');
            }
            let head = s.substring_char(0, i);
            let rest = s.substring_char(i + 1, m);
            proof {
                assert(s@.subrange(0, i as int) =~= s@.take(i as int));
                assert(s@.subrange(i + 1, m as int) =~= s@.skip(i + 1));
            }
            let mut parts = splitn_sp_exec(rest, n - 1);
            parts.insert(0, head);
            proof {
                lemma_vec_deep_view(&parts);
                assert(parts.deep_view() =~~= splitn_sp(s@, n as nat));
            }
            parts
        },
    }
}

} // verus!
