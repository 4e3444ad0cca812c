//! How the client's subscription command and the server's command parser
//! fit together: the words and pieces the client joins are the ones the
//! server splits back out, so a well-formed subscription is accepted for
//! exactly the endpoint and tickers it names.

use vstd::prelude::*;

use crate::client::protocol::spec_stream_command;
use crate::common::address::spec_parse_udp_address;
use crate::server::command::{
    endpoint_taken, first_unknown, is_first_unknown, spec_parse_command,
};
use crate::server::error::ServerErrorView;
use crate::server::model::ClientView;
use crate::text::{ascii_words, is_ascii_space, join_with, split_on, split_state, words_state};

verus! {

/// Whether `s` has no ASCII whitespace.
pub open spec fn no_ascii_space(s: Seq<char>) -> bool {
    forall|i: int| 0 <= i < s.len() ==> !is_ascii_space(#[trigger] s[i])
}

/// Whether `s` does not contain `c`.
pub open spec fn lacks(s: Seq<char>, c: char) -> bool {
    forall|i: int| 0 <= i < s.len() ==> #[trigger] s[i] != c
}

/// Reading a word without whitespace extends the open word.
proof fn lemma_words_extend(p: Seq<char>, w: Seq<char>)
    requires
        no_ascii_space(w),
    ensures
        words_state(p + w) == (words_state(p).0, words_state(p).1 + w),
    decreases w.len(),
{
    if w.len() == 0 {
        assert(p + w == p);
        assert(words_state(p).1 + w == words_state(p).1);
    } else {
        let w0 = w.drop_last();
        lemma_words_extend(p, w0);
        assert((p + w).drop_last() == p + w0);
        assert((p + w).last() == w.last());
        assert(words_state(p).1 + w == (words_state(p).1 + w0).push(w.last()));
    }
}

/// Reading a whitespace character closes the open word, if any.
proof fn lemma_words_close(p: Seq<char>, c: char)
    requires
        is_ascii_space(c),
    ensures
        words_state(p.push(c)) == (ascii_words(p), Seq::<char>::empty()),
{
    assert(p.push(c).drop_last() == p);
}

/// Reading a piece without the separator extends the open piece.
proof fn lemma_split_extend(p: Seq<char>, w: Seq<char>, sep: char)
    requires
        lacks(w, sep),
    ensures
        split_state(p + w, sep) == (split_state(p, sep).0, split_state(p, sep).1 + w),
    decreases w.len(),
{
    if w.len() == 0 {
        assert(p + w == p);
        assert(split_state(p, sep).1 + w == split_state(p, sep).1);
    } else {
        let w0 = w.drop_last();
        lemma_split_extend(p, w0, sep);
        assert((p + w).drop_last() == p + w0);
        assert((p + w).last() == w.last());
        assert(split_state(p, sep).1 + w == (split_state(p, sep).1 + w0).push(w.last()));
    }
}

/// Splitting a joined list at the separator gives the list back, when no
/// element contains the separator.
pub proof fn lemma_split_join(list: Seq<Seq<char>>, sep: char)
    requires
        list.len() > 0,
        forall|i: int| 0 <= i < list.len() ==> lacks(#[trigger] list[i], sep),
    ensures
        split_on(join_with(list, seq![sep]), sep) == list,
    decreases list.len(),
{
    lemma_split_join_state(list, sep);
    assert(list.drop_last().push(list.last()) == list);
}

/// The state after reading a joined list: all but the last element closed,
/// the last one open.
proof fn lemma_split_join_state(list: Seq<Seq<char>>, sep: char)
    requires
        list.len() > 0,
        forall|i: int| 0 <= i < list.len() ==> lacks(#[trigger] list[i], sep),
    ensures
        split_state(join_with(list, seq![sep]), sep) == (list.drop_last(), list.last()),
    decreases list.len(),
{
    if list.len() == 1 {
        lemma_split_extend(seq![], list[0], sep);
        assert(Seq::<char>::empty() + list[0] == list[0]);
        assert(list.drop_last() == Seq::<Seq<char>>::empty());
    } else {
        let front = list.drop_last();
        assert forall|i: int| 0 <= i < front.len() implies lacks(#[trigger] front[i], sep) by {
            assert(front[i] == list[i]);
        }
        lemma_split_join_state(front, sep);
        let j = join_with(front, seq![sep]);
        assert(seq![sep] == Seq::<char>::empty().push(sep));
        assert(j + seq![sep] == j.push(sep));
        assert((j.push(sep)).drop_last() == j);
        assert(split_state(j.push(sep), sep) == (front.drop_last().push(front.last()), Seq::<
            char,
        >::empty()));
        assert(front.drop_last().push(front.last()) == front);
        lemma_split_extend(j.push(sep), list.last(), sep);
        assert(join_with(list, seq![sep]) == j.push(sep) + list.last());
        assert(Seq::<char>::empty() + list.last() == list.last());
        assert(list.last() == list[list.len() - 1]);
    }
}

/// A joined list of non-empty elements is not empty.
proof fn lemma_join_nonempty(list: Seq<Seq<char>>, sep: Seq<char>)
    requires
        list.len() > 0,
        forall|i: int| 0 <= i < list.len() ==> (#[trigger] list[i]).len() > 0,
    ensures
        join_with(list, sep).len() > 0,
    decreases list.len(),
{
    if list.len() > 1 {
        assert(list[list.len() - 1].len() > 0);
    } else {
        assert(list[0].len() > 0);
    }
}

/// A joined list has no ASCII whitespace when neither its elements nor the
/// separator have any.
proof fn lemma_join_no_space(list: Seq<Seq<char>>, sep: Seq<char>)
    requires
        no_ascii_space(sep),
        forall|i: int| 0 <= i < list.len() ==> no_ascii_space(#[trigger] list[i]),
    ensures
        no_ascii_space(join_with(list, sep)),
    decreases list.len(),
{
    if list.len() == 1 {
        assert(no_ascii_space(list[0]));
    } else if list.len() > 1 {
        let front = list.drop_last();
        assert forall|i: int| 0 <= i < front.len() implies no_ascii_space(#[trigger] front[i]) by {
            assert(front[i] == list[i]);
        }
        lemma_join_no_space(front, sep);
        let j = join_with(front, sep);
        let l = list.last();
        assert(no_ascii_space(list[list.len() - 1]));
        let all = j + sep + l;
        assert forall|i: int| 0 <= i < all.len() implies !is_ascii_space(#[trigger] all[i]) by {
            if i < j.len() {
                assert(all[i] == j[i]);
            } else if i < j.len() + sep.len() {
                assert(all[i] == sep[i - j.len()]);
            } else {
                assert(all[i] == l[i - j.len() - sep.len()]);
            }
        }
    }
}

/// The words of a subscription command line: `STREAM`, the address and the
/// joined tickers.
proof fn lemma_command_words(udp_server: Seq<char>, joined: Seq<char>)
    requires
        no_ascii_space(udp_server),
        no_ascii_space(joined),
        joined.len() > 0,
    ensures
        ascii_words(spec_stream_command_with(udp_server, joined) + "\n"@) == seq![
            "STREAM"@,
            "udp://"@ + udp_server,
            joined,
        ],
{
    reveal_strlit("STREAM");
    reveal_strlit("STREAM udp://");
    reveal_strlit("udp://");
    reveal_strlit(" ");
    reveal_strlit("\n");
    let stream = "STREAM"@;
    let addr = "udp://"@ + udp_server;
    assert(no_ascii_space(stream));
    assert forall|i: int| 0 <= i < addr.len() implies !is_ascii_space(#[trigger] addr[i]) by {
        if i >= 6 {
            assert(addr[i] == udp_server[i - 6]);
        }
    }
    let empty = Seq::<char>::empty();
    assert(words_state(empty) == (Seq::<Seq<char>>::empty(), empty));
    lemma_words_extend(empty, stream);
    assert(empty + stream == stream);
    let s1 = stream.push(' ');
    lemma_words_close(stream, ' ');
    assert(ascii_words(stream) == seq![stream]);
    lemma_words_extend(s1, addr);
    assert(empty + addr == addr);
    let s2 = (s1 + addr).push(' ');
    lemma_words_close(s1 + addr, ' ');
    assert(ascii_words(s1 + addr) == seq![stream, addr]);
    lemma_words_extend(s2, joined);
    assert(empty + joined == joined);
    let s3 = (s2 + joined).push('\n');
    lemma_words_close(s2 + joined, '\n');
    assert(ascii_words(s2 + joined) == seq![stream, addr, joined]);
    assert(words_state(s3) == (seq![stream, addr, joined], empty));
    assert("STREAM udp://"@ =~= s1 + "udp://"@);
    assert("STREAM udp://"@ + udp_server =~= s1 + addr);
    assert("STREAM udp://"@ + udp_server + " "@ =~= s2);
    assert(spec_stream_command_with(udp_server, joined) + "\n"@ =~= s3);
}

/// The command line for an already joined ticker list.
pub open spec fn spec_stream_command_with(udp_server: Seq<char>, joined: Seq<char>) -> Seq<char> {
    "STREAM udp://"@ + udp_server + " "@ + joined
}

/// The subscription that the client sends (followed by the newline it
/// writes after it) is accepted by the server for exactly the endpoint and
/// tickers it names, and announces exactly those tickers, whenever the
/// address is a valid UDP target, the tickers are known and free of commas
/// and whitespace, and no client already streams to that endpoint.
pub proof fn lemma_client_subscription_accepted(
    udp_server: Seq<char>,
    tickers: Seq<Seq<char>>,
    known: Seq<Seq<char>>,
    clients: Seq<ClientView>,
    host: Seq<char>,
    port: u16,
)
    requires
        no_ascii_space(udp_server),
        spec_parse_udp_address("udp://"@ + udp_server) == Ok::<
            (Seq<char>, u16),
            crate::common::address::UdpAddressError,
        >((host, port)),
        tickers.len() > 0,
        forall|i: int|
            0 <= i < tickers.len() ==> {
                &&& (#[trigger] tickers[i]).len() > 0
                &&& lacks(tickers[i], ',')
                &&& no_ascii_space(tickers[i])
                &&& known.contains(tickers[i])
            },
        !endpoint_taken(clients, host, port),
    ensures
        spec_parse_command(spec_stream_command(udp_server, tickers) + "\n"@, known, clients) == (
            Ok::<ClientView, ServerErrorView>(
                ClientView { adress: host, port: port, ticker: tickers, alive: false },
            ),
            tickers,
        ),
{
    reveal_strlit(",");
    let comma = ","@;
    assert(comma == seq![',']);
    assert(no_ascii_space(comma));
    let joined = join_with(tickers, comma);
    lemma_join_nonempty(tickers, comma);
    lemma_join_no_space(tickers, comma);
    lemma_command_words(udp_server, joined);
    assert(spec_stream_command(udp_server, tickers) == spec_stream_command_with(udp_server, joined));
    lemma_split_join(tickers, ',');
    assert(!exists|k: int| is_first_unknown(tickers, known, k));
    assert(first_unknown(tickers, known) == tickers.len());
}

} // verus!
