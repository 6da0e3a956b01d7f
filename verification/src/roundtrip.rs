//! Parsing inverts serialization: for every command with a known verb,
//! in-range arity and separator-free middle parameters, reading back the
//! wire text yields the same command.

use crate::command::{
    filter_nonempty, is_token, join_commas, join_sp, spec_command_new, spec_command_parts,
    spec_serialize_command, spec_split_command, spec_stringify, split_commas, splitn_sp,
    valid_command, CommandV,
};
use crate::error::MessageParseError;
use crate::message::{spec_parse_message, ContentsV, MessageV};
use crate::text::{
    find_ch, lemma_find_ch, lemma_find_ch_at, lemma_find_ch_none, lemma_sp_colon_at,
    lemma_sp_colon_none, no_sp_colon, upper_seq,
};
use vstd::prelude::*;

verus! {

/// A sequence without spaces has no space-colon pair.
proof fn lemma_no_sp_colon_no_space(s: Seq<char>)
    requires
        find_ch(s, ' ') is None,
    ensures
        no_sp_colon(s),
{
    lemma_find_ch(s, ' ');
}

/// Appending keeps freedom from space-colon pairs as long as the second
/// part does not begin with a colon.
proof fn lemma_no_sp_colon_append(a: Seq<char>, b: Seq<char>)
    requires
        no_sp_colon(a),
        no_sp_colon(b),
        b.len() > 0 ==> b[0] != ':',
    ensures
        no_sp_colon(a + b),
{
    let t = a + b;
    assert forall|j: int| 0 <= j && j + 1 < t.len() implies !(#[trigger] t[j] == ' ' && t[j + 1]
        == ':') by {
        if j + 1 < a.len() {
            assert(t[j] == a[j] && t[j + 1] == a[j + 1]);
        } else if j + 1 == a.len() {
            assert(t[j + 1] == b[0]);
        } else {
            assert(t[j] == b[j - a.len()] && t[j + 1] == b[j + 1 - a.len()]);
        }
    }
}

/// Tokens joined by single spaces hold no space-colon pair, and the join
/// begins with the first token's first character.
proof fn lemma_join_sp_shape(mids: Seq<Seq<char>>)
    requires
        forall|i: int| 0 <= i < mids.len() ==> is_token(#[trigger] mids[i]),
    ensures
        no_sp_colon(join_sp(mids)),
        mids.len() > 0 ==> join_sp(mids).len() > 0 && join_sp(mids)[0] == mids[0][0],
    decreases mids.len(),
{
    reveal_strlit(" ");
    if mids.len() == 0 {
    } else if mids.len() == 1 {
        lemma_no_sp_colon_no_space(mids[0]);
    } else {
        let rest = mids.drop_first();
        lemma_join_sp_shape(rest);
        lemma_no_sp_colon_no_space(mids[0]);
        assert(no_sp_colon(" "@)) by {
            assert(" "@.len() == 1);
        }
        lemma_no_sp_colon_append(mids[0], " "@);
        lemma_no_sp_colon_append(mids[0] + " "@, join_sp(rest));
        assert((mids[0] + " "@) + join_sp(rest) =~= join_sp(mids));
    }
}

/// Tokens joined by single spaces, a space, then a tail: how the bounded
/// space split reads it back.
spec fn spaced(mids: Seq<Seq<char>>, tail: Seq<char>) -> Seq<char> {
    if mids.len() == 0 {
        tail
    } else {
        join_sp(mids) + " "@ + tail
    }
}

/// The bounded space split recovers the joined tokens one by one and
/// leaves the tail to the remaining budget.
proof fn lemma_splitn_spaced(mids: Seq<Seq<char>>, tail: Seq<char>, n: nat)
    requires
        forall|i: int| 0 <= i < mids.len() ==> is_token(#[trigger] mids[i]),
        mids.len() + 1 <= n,
    ensures
        splitn_sp(spaced(mids, tail), n) == mids + splitn_sp(tail, (n - mids.len()) as nat),
    decreases mids.len(),
{
    reveal_strlit(" ");
    if mids.len() == 0 {
        assert(Seq::<Seq<char>>::empty() + splitn_sp(tail, n) =~~= splitn_sp(tail, n));
    } else {
        let rest = mids.drop_first();
        let g = spaced(mids, tail);
        if rest.len() == 0 {
            assert(g =~= mids[0] + " "@ + spaced(rest, tail));
        } else {
            assert(join_sp(mids) =~= mids[0] + " "@ + join_sp(rest));
            assert(g =~= mids[0] + " "@ + spaced(rest, tail));
        }
        let h = mids[0] + " "@ + spaced(rest, tail);
        lemma_find_ch(mids[0], ' ');
        assert(h[mids[0].len() as int] == ' ');
        assert(forall|j: int| 0 <= j < mids[0].len() ==> #[trigger] h[j] == mids[0][j]);
        lemma_find_ch_at(h, ' ', mids[0].len() as int);
        assert(h.take(mids[0].len() as int) =~= mids[0]);
        assert(h.skip(mids[0].len() as int + 1) =~= spaced(rest, tail));
        lemma_splitn_spaced(rest, tail, (n - 1) as nat);
        assert(splitn_sp(g, n) =~~= seq![mids[0]] + (rest + splitn_sp(
            tail,
            (n - mids.len()) as nat,
        )));
        assert(seq![mids[0]] + (rest + splitn_sp(tail, (n - mids.len()) as nat)) =~~= mids
            + splitn_sp(tail, (n - mids.len()) as nat));
    }
}

/// Filtering keeps a sequence of nonempty parts whole.
proof fn lemma_filter_nonempty_id(parts: Seq<Seq<char>>)
    requires
        forall|i: int| 0 <= i < parts.len() ==> (#[trigger] parts[i]).len() > 0,
    ensures
        filter_nonempty(parts) == parts,
    decreases parts.len(),
{
    reveal_with_fuel(Seq::filter, 2);
    if parts.len() == 0 {
        assert(filter_nonempty(parts) =~~= parts);
    } else {
        lemma_filter_nonempty_id(parts.drop_last());
        assert(filter_nonempty(parts) =~~= parts.drop_last().push(parts.last()));
        assert(parts.drop_last().push(parts.last()) =~~= parts);
    }
}

/// Filtering drops one empty part appended at the end.
proof fn lemma_filter_push_empty(parts: Seq<Seq<char>>, e: Seq<char>)
    requires
        e.len() == 0,
    ensures
        filter_nonempty(parts.push(e)) == filter_nonempty(parts),
{
    reveal_with_fuel(Seq::filter, 2);
    assert(parts.push(e).drop_last() =~~= parts);
    assert(parts.push(e).last() == e);
    assert(filter_nonempty(parts.push(e)) =~~= filter_nonempty(parts));
}

/// Splitting at commas inverts joining with commas, for comma-free parts.
proof fn lemma_split_join_commas(parts: Seq<Seq<char>>)
    requires
        parts.len() >= 1,
        forall|i: int| 0 <= i < parts.len() ==> find_ch(#[trigger] parts[i], ',') is None,
    ensures
        split_commas(join_commas(parts)) == parts,
    decreases parts.len(),
{
    reveal_strlit(",");
    let g = join_commas(parts);
    if parts.len() == 1 {
        assert(g == parts[0]);
        assert(split_commas(g) =~~= parts);
    } else {
        let rest = parts.drop_first();
        assert(g == parts[0] + ","@ + join_commas(rest));
        lemma_find_ch(parts[0], ',');
        assert(g[parts[0].len() as int] == ',');
        assert(forall|j: int| 0 <= j < parts[0].len() ==> #[trigger] g[j] == parts[0][j]);
        lemma_find_ch_at(g, ',', parts[0].len() as int);
        assert(g.take(parts[0].len() as int) =~= parts[0]);
        assert(g.skip(parts[0].len() as int + 1) =~= join_commas(rest));
        lemma_split_join_commas(rest);
        assert(seq![parts[0]] + rest =~~= parts);
    }
}

/// A comma join of space-free parts holds no space.
proof fn lemma_join_commas_no_space(parts: Seq<Seq<char>>)
    requires
        parts.len() >= 1,
        forall|i: int| 0 <= i < parts.len() ==> find_ch(#[trigger] parts[i], ' ') is None,
    ensures
        forall|k: int| 0 <= k < join_commas(parts).len() ==> join_commas(parts)[k] != ' ',
    decreases parts.len(),
{
    reveal_strlit(",");
    lemma_find_ch(parts[0], ' ');
    if parts.len() >= 2 {
        let rest = parts.drop_first();
        lemma_join_commas_no_space(rest);
        assert forall|k: int|
            0 <= k < join_commas(parts).len() implies #[trigger] join_commas(parts)[k] != ' ' by {
            let g = join_commas(parts);
            let p0 = parts[0];
            if k < p0.len() {
                assert(g[k] == p0[k]);
            } else if k == p0.len() {
                assert(g[k] == ',');
            } else {
                assert(g[k] == join_commas(rest)[k - p0.len() - 1]);
            }
        }
    }
}

/// Whether the serializer must colon-prefix the final parameter.
spec fn needs_colon(sfx: Seq<char>) -> bool {
    sfx.len() == 0 || find_ch(sfx, ' ') is Some || sfx[0] == ':'
}

/// The serialized text, split at the verb: the first space falls right
/// after the verb, and nothing before the final space starts a
/// space-colon pair.
#[verifier::rlimit(60)]
proof fn lemma_stringify_shape(cmd: Seq<char>, args: Seq<Seq<char>>)
    requires
        is_token(cmd),
        args.len() >= 1,
        forall|i: int| 0 <= i < args.len() - 1 ==> is_token(#[trigger] args[i]),
    ensures
        ({
            let mids = args.drop_last();
            let joined = join_sp(mids);
            let sp: Seq<char> = if joined.len() == 0 { Seq::empty() } else { " "@ };
            let w = cmd + sp + joined + " "@;
            no_sp_colon(w) && w[w.len() - 1] == ' ' && w[cmd.len() as int] == ' '
                && (forall|j: int| 0 <= j < cmd.len() ==> #[trigger] w[j] == cmd[j])
                && find_ch(w, ' ') == Some(cmd.len() as int)
                && w.skip(cmd.len() as int + 1) =~= spaced(mids, Seq::empty())
        }),
{
    reveal_strlit(" ");
    let mids = args.drop_last();
    let k = mids.len() as int;
    let joined = join_sp(mids);
    lemma_join_sp_shape(mids);
    let sp: Seq<char> = if joined.len() == 0 { Seq::empty() } else { " "@ };
    let w = cmd + sp + joined + " "@;
    lemma_no_sp_colon_no_space(cmd);
    if joined.len() == 0 {
        assert(w =~= cmd + " "@);
        lemma_no_sp_colon_append(cmd, " "@);
        assert(no_sp_colon(w));
    } else {
        assert(joined[0] != ':');
        lemma_no_sp_colon_append(cmd, " "@);
        lemma_no_sp_colon_append(cmd + " "@, joined);
        lemma_no_sp_colon_append((cmd + " "@) + joined, " "@);
        assert(((cmd + " "@) + joined) + " "@ =~= w);
    }
    lemma_find_ch(cmd, ' ');
    assert(w[cmd.len() as int] == ' ');
    assert(forall|j: int| 0 <= j < cmd.len() ==> #[trigger] w[j] == cmd[j]);
    lemma_find_ch_at(w, ' ', cmd.len() as int);
    if k == 0 {
        assert(joined.len() == 0);
        assert(w.skip(cmd.len() as int + 1) =~= Seq::<char>::empty());
    } else {
        assert(joined.len() > 0);
        assert(w.skip(cmd.len() as int + 1) =~= joined + " "@);
        assert(joined + " "@ =~= spaced(mids, Seq::empty()));
    }
}

/// The parameter text after the verb reads back as the middles followed by
/// what the trailing rule appends.
#[verifier::rlimit(60)]
proof fn lemma_params_read_back(mids: Seq<Seq<char>>, tail: Seq<char>)
    requires
        mids.len() <= 13,
        forall|i: int| 0 <= i < mids.len() ==> is_token(#[trigger] mids[i]),
        tail.len() == 0 || (tail.len() > 0 && find_ch(tail, ' ') is None),
    ensures
        tail.len() == 0 ==> filter_nonempty(splitn_sp(spaced(mids, Seq::empty()), 14)) == mids,
        tail.len() > 0 ==> filter_nonempty(splitn_sp(spaced(mids, tail), 14)) == mids.push(tail),
{
    if tail.len() == 0 {
        lemma_splitn_spaced(mids, Seq::empty(), 14);
        lemma_find_ch_none(Seq::empty(), ' ');
        assert(splitn_sp(Seq::empty(), (14 - mids.len()) as nat) =~~= seq![Seq::<char>::empty()]);
        assert(splitn_sp(spaced(mids, Seq::empty()), 14) =~~= mids.push(Seq::empty())) by {
            assert(mids + seq![Seq::<char>::empty()] =~~= mids.push(Seq::empty()));
        }
        lemma_filter_push_empty(mids, Seq::empty());
        lemma_filter_nonempty_id(mids);
    } else {
        lemma_splitn_spaced(mids, tail, 14);
        assert(splitn_sp(tail, (14 - mids.len()) as nat) =~~= seq![tail]);
        assert(splitn_sp(spaced(mids, tail), 14) =~~= mids.push(tail)) by {
            assert(mids + seq![tail] =~~= mids.push(tail));
        }
        lemma_filter_nonempty_id(mids.push(tail));
    }
}

/// How the line splitter reads back what the serializer wrote, when the
/// final parameter goes out colon-prefixed.
#[verifier::rlimit(60)]
proof fn lemma_split_stringify_colon(cmd: Seq<char>, args: Seq<Seq<char>>)
    requires
        is_token(cmd),
        1 <= args.len() <= 14,
        forall|i: int| 0 <= i < args.len() - 1 ==> is_token(#[trigger] args[i]),
        needs_colon(args.last()),
    ensures
        spec_split_command(spec_stringify(cmd, args)) == Ok::<
            (Seq<char>, Seq<Seq<char>>),
            MessageParseError,
        >((cmd, args)),
{
    reveal_strlit(" ");
    reveal_strlit(":");
    let t = spec_stringify(cmd, args);
    let mids = args.drop_last();
    let sfx = args.last();
    let joined = join_sp(mids);
    let sp: Seq<char> = if joined.len() == 0 { Seq::empty() } else { " "@ };
    let w = cmd + sp + joined + " "@;
    lemma_stringify_shape(cmd, args);
    assert(t == w + ":"@ + sfx) by {
        assert(cmd + sp + joined + " "@ + ":"@ + sfx =~= w + ":"@ + sfx);
    }
    let pos = w.len() - 1;
    assert(t[pos] == ' ' && t[pos + 1] == ':') by {
        assert(t[pos] == w[pos]);
        assert(t[pos + 1] == ":"@[0]);
    }
    assert(forall|j: int| 0 <= j < pos + 1 ==> #[trigger] t[j] == w[j]);
    lemma_sp_colon_at(t, pos);
    let head = t.take(pos + 1);
    assert(head =~= w);
    assert(t.skip(pos + 2) =~= sfx);
    assert(find_ch(head, ' ') == Some(cmd.len() as int));
    assert(head.take(cmd.len() as int) =~= cmd);
    assert(head.skip(cmd.len() as int + 1) =~= spaced(mids, Seq::empty()));
    lemma_params_read_back(mids, Seq::empty());
    assert(mids.push(sfx) =~~= args);
}

/// How the line splitter reads back what the serializer wrote, when the
/// final parameter goes out bare.
#[verifier::rlimit(60)]
proof fn lemma_split_stringify_plain(cmd: Seq<char>, args: Seq<Seq<char>>)
    requires
        is_token(cmd),
        1 <= args.len() <= 14,
        forall|i: int| 0 <= i < args.len() - 1 ==> is_token(#[trigger] args[i]),
        !needs_colon(args.last()),
    ensures
        spec_split_command(spec_stringify(cmd, args)) == Ok::<
            (Seq<char>, Seq<Seq<char>>),
            MessageParseError,
        >((cmd, args)),
{
    reveal_strlit(" ");
    reveal_strlit(":");
    let t = spec_stringify(cmd, args);
    let mids = args.drop_last();
    let sfx = args.last();
    let joined = join_sp(mids);
    let sp: Seq<char> = if joined.len() == 0 { Seq::empty() } else { " "@ };
    let w = cmd + sp + joined + " "@;
    lemma_stringify_shape(cmd, args);
    assert(t =~= w + sfx) by {
        assert(cmd + sp + joined + " "@ + Seq::<char>::empty() + sfx =~= w + sfx);
    }
    assert(sfx.len() > 0 && find_ch(sfx, ' ') is None && sfx[0] != ':');
    lemma_no_sp_colon_no_space(sfx);
    lemma_no_sp_colon_append(w, sfx);
    assert(no_sp_colon(t)) by {
        assert(w + sfx =~= t);
    }
    lemma_sp_colon_none(t);
    assert(find_ch(t, ' ') == Some(cmd.len() as int)) by {
        lemma_find_ch(cmd, ' ');
        assert(forall|j: int| 0 <= j < cmd.len() ==> #[trigger] t[j] == w[j]);
        assert(t[cmd.len() as int] == w[cmd.len() as int]);
        lemma_find_ch_at(t, ' ', cmd.len() as int);
    }
    assert(t.take(cmd.len() as int) =~= cmd);
    assert(t.skip(cmd.len() as int + 1) =~= spaced(mids, sfx)) by {
        assert(w.skip(cmd.len() as int + 1) =~= spaced(mids, Seq::empty()));
        if mids.len() == 0 {
            assert(t.skip(cmd.len() as int + 1) =~= sfx);
        } else {
            assert(t.skip(cmd.len() as int + 1) =~= joined + " "@ + sfx);
        }
    }
    lemma_params_read_back(mids, sfx);
    assert(mids.push(sfx) =~~= args);
}

/// How the line splitter reads back what the serializer wrote: the verb
/// and the parameter list come out unchanged whenever the verb and every
/// middle parameter are tokens and the parameter count is within the wire
/// bound.
proof fn lemma_split_stringify(cmd: Seq<char>, args: Seq<Seq<char>>)
    requires
        is_token(cmd),
        args.len() <= 14,
        forall|i: int| 0 <= i < args.len() - 1 ==> is_token(#[trigger] args[i]),
    ensures
        spec_split_command(spec_stringify(cmd, args)) == Ok::<
            (Seq<char>, Seq<Seq<char>>),
            MessageParseError,
        >((cmd, args)),
{
    reveal_strlit(" ");
    reveal_strlit(":");
    if args.len() == 0 {
        let t = spec_stringify(cmd, args);
        lemma_no_sp_colon_no_space(cmd);
        lemma_sp_colon_none(cmd);
        assert(args =~~= Seq::<Seq<char>>::empty());
    } else if needs_colon(args.last()) {
        lemma_split_stringify_colon(cmd, args);
    } else {
        lemma_split_stringify_plain(cmd, args);
    }
}

/// The known verbs are pairwise distinct character sequences.
proof fn lemma_verbs_distinct()
    ensures
        "NICK"@ != "PASS"@,
        "USER"@ != "PASS"@,
        "USER"@ != "NICK"@,
        "PING"@ != "PASS"@,
        "PING"@ != "NICK"@,
        "PING"@ != "USER"@,
        "PONG"@ != "PASS"@,
        "PONG"@ != "NICK"@,
        "PONG"@ != "USER"@,
        "PONG"@ != "PING"@,
        "PRIVMSG"@ != "PASS"@,
        "PRIVMSG"@ != "NICK"@,
        "PRIVMSG"@ != "USER"@,
        "PRIVMSG"@ != "PING"@,
        "PRIVMSG"@ != "PONG"@,
        "NOTICE"@ != "PASS"@,
        "NOTICE"@ != "NICK"@,
        "NOTICE"@ != "USER"@,
        "NOTICE"@ != "PING"@,
        "NOTICE"@ != "PONG"@,
        "NOTICE"@ != "PRIVMSG"@,
        "QUIT"@ != "PASS"@,
        "QUIT"@ != "NICK"@,
        "QUIT"@ != "USER"@,
        "QUIT"@ != "PING"@,
        "QUIT"@ != "PONG"@,
        "QUIT"@ != "PRIVMSG"@,
        "QUIT"@ != "NOTICE"@,
{
    reveal_strlit("PASS");
    reveal_strlit("NICK");
    reveal_strlit("USER");
    reveal_strlit("PING");
    reveal_strlit("PONG");
    reveal_strlit("PRIVMSG");
    reveal_strlit("NOTICE");
    reveal_strlit("QUIT");
    assert("NICK"@[0] != "PASS"@[0]);
    assert("USER"@[0] != "PASS"@[0]);
    assert("USER"@[0] != "NICK"@[0]);
    assert("PING"@[1] != "PASS"@[1]);
    assert("PING"@[0] != "NICK"@[0]);
    assert("PING"@[0] != "USER"@[0]);
    assert("PONG"@[1] != "PASS"@[1]);
    assert("PONG"@[0] != "NICK"@[0]);
    assert("PONG"@[0] != "USER"@[0]);
    assert("PONG"@[1] != "PING"@[1]);
    assert("PRIVMSG"@.len() != "PASS"@.len());
    assert("NOTICE"@.len() != "PASS"@.len());
    assert("NOTICE"@.len() != "PRIVMSG"@.len());
    assert("QUIT"@[0] != "PASS"@[0]);
    assert("QUIT"@[0] != "NICK"@[0]);
    assert("QUIT"@[0] != "USER"@[0]);
    assert("QUIT"@[0] != "PING"@[0]);
    assert("QUIT"@[0] != "PONG"@[0]);
    assert("QUIT"@.len() != "PRIVMSG"@.len());
    assert("QUIT"@[0] != "NOTICE"@[0]);
}

/// The verb table sends each valid command's own verb and parameters back
/// to that command.
proof fn lemma_command_new_inverts(c: CommandV)
    requires
        valid_command(c),
    ensures
        spec_command_new(spec_command_parts(c).0, spec_command_parts(c).1) == Ok::<
            CommandV,
            MessageParseError,
        >(c),
{
    reveal_strlit("PASS");
    reveal_strlit("NICK");
    reveal_strlit("USER");
    reveal_strlit("PING");
    reveal_strlit("PONG");
    reveal_strlit("PRIVMSG");
    reveal_strlit("NOTICE");
    reveal_strlit("QUIT");
    assert(upper_seq("PASS"@) =~= "PASS"@);
    assert(upper_seq("NICK"@) =~= "NICK"@);
    assert(upper_seq("USER"@) =~= "USER"@);
    assert(upper_seq("PING"@) =~= "PING"@);
    assert(upper_seq("PONG"@) =~= "PONG"@);
    assert(upper_seq("PRIVMSG"@) =~= "PRIVMSG"@);
    assert(upper_seq("NOTICE"@) =~= "NOTICE"@);
    assert(upper_seq("QUIT"@) =~= "QUIT"@);
    lemma_verbs_distinct();
    match c {
        CommandV::Privmsg(r, m, cc) => {
            match cc {
                None => {
                    lemma_find_ch(r, ',');
                },
                Some(ccs) => {
                    let parts = seq![r] + ccs;
                    assert(parts.len() >= 2);
                    assert(forall|i: int|
                        0 <= i < parts.len() ==> find_ch(#[trigger] parts[i], ',') is None) by {
                        assert(parts[0] == r);
                        assert(forall|i: int| 1 <= i < parts.len() ==> parts[i] == ccs[i - 1]);
                    }
                    let g = join_commas(parts);
                    reveal_strlit(",");
                    assert(parts.drop_first() =~~= ccs);
                    assert(g == r + ","@ + join_commas(ccs));
                    lemma_find_ch(r, ',');
                    assert(g[r.len() as int] == ',');
                    assert(forall|j: int| 0 <= j < r.len() ==> #[trigger] g[j] == r[j]);
                    lemma_find_ch_at(g, ',', r.len() as int);
                    lemma_split_join_commas(parts);
                    assert(split_commas(g)[0] == r);
                    assert(split_commas(g).drop_first() =~~= ccs);
                },
            }
        },
        _ => {},
    }
}

/// Every middle parameter a valid command serializes is a token, and its
/// verb is one.
proof fn lemma_parts_tokens(c: CommandV)
    requires
        valid_command(c),
    ensures
        is_token(spec_command_parts(c).0),
        spec_command_parts(c).1.len() <= 14,
        forall|i: int|
            0 <= i < spec_command_parts(c).1.len() - 1 ==> is_token(
                #[trigger] spec_command_parts(c).1[i],
            ),
{
    reveal_strlit("PASS");
    reveal_strlit("NICK");
    reveal_strlit("USER");
    reveal_strlit("PING");
    reveal_strlit("PONG");
    reveal_strlit("PRIVMSG");
    reveal_strlit("NOTICE");
    reveal_strlit("QUIT");
    assert(is_token("PASS"@)) by {
        lemma_find_ch_none("PASS"@, ' ');
    }
    assert(is_token("NICK"@)) by {
        lemma_find_ch_none("NICK"@, ' ');
    }
    assert(is_token("USER"@)) by {
        lemma_find_ch_none("USER"@, ' ');
    }
    assert(is_token("PING"@)) by {
        lemma_find_ch_none("PING"@, ' ');
    }
    assert(is_token("PONG"@)) by {
        lemma_find_ch_none("PONG"@, ' ');
    }
    assert(is_token("PRIVMSG"@)) by {
        lemma_find_ch_none("PRIVMSG"@, ' ');
    }
    assert(is_token("NOTICE"@)) by {
        lemma_find_ch_none("NOTICE"@, ' ');
    }
    assert(is_token("QUIT"@)) by {
        lemma_find_ch_none("QUIT"@, ' ');
    }
    match c {
        CommandV::Privmsg(r, m, cc) => match cc {
            None => {},
            Some(ccs) => {
                let parts = seq![r] + ccs;
                assert(parts.len() >= 2);
                assert(forall|i: int|
                    0 <= i < parts.len() ==> find_ch(#[trigger] parts[i], ' ') is None) by {
                    assert(parts[0] == r);
                    assert(forall|i: int| 1 <= i < parts.len() ==> parts[i] == ccs[i - 1]);
                }
                let g = join_commas(parts);
                reveal_strlit(",");
                assert(parts.drop_first() =~~= ccs);
                assert(g == r + ","@ + join_commas(ccs));
                lemma_join_commas_no_space(parts);
                lemma_find_ch_none(g, ' ');
                assert(g.len() > r.len());
                assert(g[r.len() as int] == ',');
                assert(is_token(g)) by {
                    if r.len() > 0 {
                        assert(g[0] == r[0]);
                    } else {
                        assert(g[0] == ',');
                    }
                }
            },
        },
        _ => {},
    }
}

/// Parsing inverts serialization: a valid command's wire text reads back
/// as a message carrying exactly that command and no prefix.
pub proof fn lemma_command_round_trip(c: CommandV)
    requires
        valid_command(c),
    ensures
        spec_parse_message(spec_serialize_command(c)) == Ok::<MessageV, MessageParseError>(
            MessageV { prefix: None, contents: ContentsV::Command(c) },
        ),
{
    let verb = spec_command_parts(c).0;
    let args = spec_command_parts(c).1;
    let t = spec_serialize_command(c);
    lemma_parts_tokens(c);
    lemma_split_stringify(verb, args);
    lemma_command_new_inverts(c);
    reveal_strlit(" ");
    reveal_strlit(":");
    assert(t.len() > 0 && t[0] != ':') by {
        if args.len() == 0 {
            assert(t == verb);
        } else {
            assert(t[0] == verb[0]);
        }
    }
    lemma_find_ch(t, ' ');
}

} // verus!
