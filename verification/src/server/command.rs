//! The `STREAM udp://<host>:<port> <ticker1,ticker2,...>` command that a
//! client sends to subscribe to quotes.

use vstd::prelude::*;

use crate::common::address::{
    parse_url, spec_parse_udp_address, udp_endpoint, url_components, UdpAddressError,
};
use crate::server::error::{ServerError, ServerErrorView};
use crate::server::model::{client_views, Client, ClientView};
use crate::text::{
    ascii_words, contains_string, split_ascii_words, split_char, split_on, starts_with,
    string_views,
};

verus! {

/// The reply to a command of the wrong shape.
pub open spec fn spec_correct_command() -> Seq<char> {
    "correct command: STREAM udp://<host>:<port> <ticker1,ticker2>"@
}

/// The reply to a subscription for an endpoint that already has a stream.
pub open spec fn spec_duplicate_stream() -> Seq<char> {
    "A stream with these settings has already been launched"@
}

/// The host that `url::Url::parse` finds in `address`, if it parses and
/// has one.
pub open spec fn spec_url_host(address: Seq<char>) -> Seq<char> {
    match url_components(address) {
        Some((_, Some(h), _)) => h,
        _ => seq![],
    }
}

/// Validates `address` as a `udp://<host>:<port>` target and writes its host
/// and port into `client`. The host is written as soon as it is read, so a
/// URL without a port leaves the host written and the port untouched.
pub fn validate_udp_address(address: &str, client: &mut Client) -> (r: Result<(), ServerError>)
    ensures
        final(client).ticker == old(client).ticker,
        final(client).alive == old(client).alive,
        match spec_parse_udp_address(address@) {
            Ok((host, port)) => {
                &&& r is Ok
                &&& final(client).adress@ == host
                &&& final(client).port == port
            },
            Err(why) => {
                &&& r matches Err(e) && e@ == ServerErrorView::SendServer(why.spec_message())
                &&& final(client).port == old(client).port
                &&& why == UdpAddressError::MissingPort ==> final(client).adress@ == spec_url_host(
                    address@,
                )
                &&& why != UdpAddressError::MissingPort ==> final(client).adress == old(
                    client,
                ).adress
            },
        },
{
    proof {
        reveal_strlit("udp://");
    }
    if !starts_with(address, "udp://") {
        return Err(ServerError::SendServer { value: UdpAddressError::MissingPrefix.message() });
    }
    let parsed = parse_url(address);
    let host = match &parsed {
        Some(parts) => match &parts.host {
            Some(h) => Some(h.clone()),
            None => None,
        },
        None => None,
    };
    match udp_endpoint(parsed) {
        Ok((h, p)) => {
            client.adress = h;
            client.port = p;
            Ok(())
        },
        Err(why) => {
            match why {
                UdpAddressError::MissingPort => match host {
                    Some(h) => {
                        client.adress = h;
                    },
                    None => {},
                },
                _ => {},
            }
            Err(ServerError::SendServer { value: why.message() })
        },
    }
}

/// `k` is the position of the first requested ticker that is not known.
pub open spec fn is_first_unknown(requested: Seq<Seq<char>>, known: Seq<Seq<char>>, k: int) -> bool {
    &&& 0 <= k < requested.len()
    &&& !known.contains(requested[k])
    &&& forall|j: int| 0 <= j < k ==> known.contains(#[trigger] requested[j])
}

/// The position of the first requested ticker that is not known, or the
/// number of requested tickers when all are known.
pub open spec fn first_unknown(requested: Seq<Seq<char>>, known: Seq<Seq<char>>) -> int {
    if exists|k: int| is_first_unknown(requested, known, k) {
        choose|k: int| is_first_unknown(requested, known, k)
    } else {
        requested.len() as int
    }
}

/// Whether some client already streams to `host:port`.
pub open spec fn endpoint_taken(clients: Seq<ClientView>, host: Seq<char>, port: u16) -> bool {
    exists|i: int| 0 <= i < clients.len() && #[trigger] clients[i].adress == host && clients[i].port == port
}

/// What the server does with one command line, given the tickers it knows
/// and the clients it already streams to: the client record it accepts or
/// the error it reports, and the tickers it announces to the quote book
/// (those it checked and found known before it stopped).
pub open spec fn spec_parse_command(
    line: Seq<char>,
    known: Seq<Seq<char>>,
    clients: Seq<ClientView>,
) -> (Result<ClientView, ServerErrorView>, Seq<Seq<char>>) {
    let words = ascii_words(line);
    if words.len() != 3 || words[0] != "STREAM"@ {
        (Err(ServerErrorView::SendServer(spec_correct_command())), seq![])
    } else {
        match spec_parse_udp_address(words[1]) {
            Err(why) => (Err(ServerErrorView::SendServer(why.spec_message())), seq![]),
            Ok((host, port)) => {
                let requested = split_on(words[2], ',');
                let k = first_unknown(requested, known);
                if k < requested.len() {
                    (Err(ServerErrorView::TickerNotFound(requested[k])), requested.take(k))
                } else if endpoint_taken(clients, host, port) {
                    (Err(ServerErrorView::SendServer(spec_duplicate_stream())), requested)
                } else {
                    (
                        Ok(ClientView { adress: host, port: port, ticker: requested, alive: false }),
                        requested,
                    )
                }
            },
        }
    }
}

/// The view of a command result.
pub open spec fn command_result_view(r: Result<Client, ServerError>) -> Result<ClientView, ServerErrorView> {
    match r {
        Ok(c) => Ok(c@),
        Err(e) => Err(e@),
    }
}

/// The reply to a command of the wrong shape.
fn correct_command() -> (s: String)
    ensures
        s@ == spec_correct_command(),
{
    String::from_str("correct command: STREAM udp://<host>:<port> <ticker1,ticker2>")
}

/// The reply to a subscription for an endpoint that already has a stream.
fn duplicate_stream() -> (s: String)
    ensures
        s@ == spec_duplicate_stream(),
{
    String::from_str("A stream with these settings has already been launched")
}

/// Whether some client in `clients` already streams to `adress:port`.
pub fn endpoint_in_use(clients: &Vec<Client>, adress: &String, port: u16) -> (r: bool)
    ensures
        r == endpoint_taken(client_views(clients@), adress@, port),
{
    let ghost views = client_views(clients@);
    let mut j: usize = 0;
    while j < clients.len()
        invariant
            j <= clients@.len(),
            views == client_views(clients@),
            forall|k: int|
                0 <= k < j ==> !(#[trigger] views[k].adress == adress@ && views[k].port == port),
        decreases clients@.len() - j,
    {
        assert(views[j as int] == clients@[j as int]@);
        if clients[j].adress == *adress && clients[j].port == port {
            assert(views[j as int].adress == adress@);
            return true;
        }
        j = j + 1;
    }
    false
}

/// Registers an accepted client, checking again that no registered client
/// already streams to its endpoint, so that the check and the registration
/// happen in one step. A taken endpoint is refused with the same error that
/// `parse_command` reports and leaves the registry unchanged.
pub fn register_client(clients: &mut Vec<Client>, client: Client) -> (r: Result<(), ServerError>)
    ensures
        endpoint_taken(client_views(old(clients)@), client.adress@, client.port) ==> {
            &&& r matches Err(e) && e@ == ServerErrorView::SendServer(spec_duplicate_stream())
            &&& final(clients)@ == old(clients)@
        },
        !endpoint_taken(client_views(old(clients)@), client.adress@, client.port) ==> {
            &&& r is Ok
            &&& final(clients)@ == old(clients)@.push(client)
        },
        r is Ok <==> !exists|i: int|
            0 <= i < old(clients)@.len() && (#[trigger] old(clients)@[i]).adress@ == client.adress@
                && old(clients)@[i].port == client.port,
        endpoints_unique(client_views(old(clients)@)) ==> endpoints_unique(
            client_views(final(clients)@),
        ),
{
    let ghost v = client_views(clients@);
    if endpoint_in_use(clients, &client.adress, client.port) {
        proof {
            lemma_endpoint_taken_iff_same_endpoint(v, client.adress@, client.port);
            let i = choose|i: int|
                0 <= i < v.len() && (#[trigger] v[i]).adress == client.adress@ && v[i].port
                    == client.port;
            assert(v[i] == clients@[i]@);
            assert(clients@[i].adress@ == client.adress@);
        }
        return Err(ServerError::SendServer { value: duplicate_stream() });
    }
    proof {
        assert forall|i: int| 0 <= i < clients@.len() implies !((#[trigger] clients@[i]).adress@
            == client.adress@ && clients@[i].port == client.port) by {
            assert(v[i] == clients@[i]@);
            if clients@[i].adress@ == client.adress@ && clients@[i].port == client.port {
                assert(v[i].adress == client.adress@);
            }
        }
    }
    let ghost before = clients@;
    let ghost c = client@;
    clients.push(client);
    proof {
        assert(client_views(clients@) == client_views(before).push(c));
        if endpoints_unique(client_views(before)) {
            lemma_push_keeps_endpoints_unique(client_views(before), c);
        }
    }
    Ok(())
}

/// Parses one command line from a client. `tickers` are the tickers the
/// server knows and `clients` the clients it already streams to. Returns the
/// new client record or the error to report, and the tickers to announce to
/// the quote book.
pub fn parse_command(line: &str, tickers: &Vec<String>, clients: &Vec<Client>) -> (r: (
    Result<Client, ServerError>,
    Vec<String>,
))
    ensures
        command_result_view(r.0) == spec_parse_command(
            line@,
            string_views(tickers@),
            client_views(clients@),
        ).0,
        string_views(r.1@) == spec_parse_command(
            line@,
            string_views(tickers@),
            client_views(clients@),
        ).1,
{
    let ghost known = string_views(tickers@);
    let words = split_ascii_words(line);
    let stream = String::from_str("STREAM");
    if words.len() != 3 {
        return (Err(ServerError::SendServer { value: correct_command() }), Vec::new());
    }
    assert(string_views(words@)[0] == words@[0]@);
    assert(string_views(words@)[1] == words@[1]@);
    assert(string_views(words@)[2] == words@[2]@);
    if words[0] != stream {
        return (Err(ServerError::SendServer { value: correct_command() }), Vec::new());
    }
    let mut client: Client = Client::new();
    match validate_udp_address(words[1].as_str(), &mut client) {
        Err(e) => {
            return (Err(e), Vec::new());
        },
        Ok(()) => {},
    }
    let ghost line_words = ascii_words(line@);
    let ghost endpoint = spec_parse_udp_address(line_words[1]);
    assert(endpoint == Ok::<(Seq<char>, u16), UdpAddressError>((client.adress@, client.port)));
    let requested = split_char(words[2].as_str(), ',');
    let ghost req = string_views(requested@);
    assert(req == split_on(line_words[2], ','));
    let mut announced: Vec<String> = Vec::new();
    let mut i: usize = 0;
    while i < requested.len()
        invariant
            i <= requested@.len(),
            req == string_views(requested@),
            known == string_views(tickers@),
            line_words == ascii_words(line@),
            line_words.len() == 3,
            line_words[0] == "STREAM"@,
            req == split_on(line_words[2], ','),
            endpoint == spec_parse_udp_address(line_words[1]),
            endpoint == Ok::<(Seq<char>, u16), UdpAddressError>((client.adress@, client.port)),
            string_views(client.ticker@) == req.take(i as int),
            string_views(announced@) == req.take(i as int),
            !client.alive,
            forall|j: int| 0 <= j < i ==> known.contains(#[trigger] req[j]),
        decreases requested@.len() - i,
    {
        assert(req[i as int] == requested@[i as int]@);
        if !contains_string(tickers, &requested[i]) {
            assert(is_first_unknown(req, known, i as int));
            assert(first_unknown(req, known) == i) by {
                let k = choose|k: int| is_first_unknown(req, known, k);
                if k < i {
                    assert(known.contains(req[k]));
                } else if k > i {
                    assert(known.contains(req[i as int]));
                }
            }
            return (Err(ServerError::TickerNotFound(requested[i].clone())), announced);
        }
        client.ticker.push(requested[i].clone());
        announced.push(requested[i].clone());
        assert(req.take(i + 1) == req.take(i as int).push(req[i as int]));
        assert(string_views(client.ticker@) == string_views(client.ticker@.drop_last()).push(
            client.ticker@.last()@,
        ));
        assert(string_views(announced@) == string_views(announced@.drop_last()).push(
            announced@.last()@,
        ));
        i = i + 1;
    }
    assert(req.take(req.len() as int) == req);
    assert(!exists|k: int| is_first_unknown(req, known, k));
    if endpoint_in_use(clients, &client.adress, client.port) {
        return (Err(ServerError::SendServer { value: duplicate_stream() }), announced);
    }
    (Ok(client), announced)
}

/// Whether no two clients stream to the same host and port.
pub open spec fn endpoints_unique(clients: Seq<ClientView>) -> bool {
    forall|i: int, j: int|
        0 <= i < j < clients.len() ==> !(clients[i].adress == clients[j].adress && clients[i].port
            == clients[j].port)
}

/// Registering the client that a command was accepted for keeps the
/// registry free of two streams to one endpoint.
pub proof fn lemma_accept_keeps_endpoints_unique(
    line: Seq<char>,
    known: Seq<Seq<char>>,
    clients: Seq<ClientView>,
)
    requires
        endpoints_unique(clients),
        spec_parse_command(line, known, clients).0 is Ok,
    ensures
        endpoints_unique(clients.push(spec_parse_command(line, known, clients).0->Ok_0)),
{
    let c = spec_parse_command(line, known, clients).0->Ok_0;
    lemma_push_keeps_endpoints_unique(clients, c);
}

/// Adding a client whose endpoint is free keeps the registry free of two
/// streams to one endpoint.
pub proof fn lemma_push_keeps_endpoints_unique(clients: Seq<ClientView>, c: ClientView)
    requires
        endpoints_unique(clients),
        !endpoint_taken(clients, c.adress, c.port),
    ensures
        endpoints_unique(clients.push(c)),
{
    let after = clients.push(c);
    assert forall|i: int, j: int| 0 <= i < j < after.len() implies !(after[i].adress
        == after[j].adress && after[i].port == after[j].port) by {
        if j == clients.len() {
            assert(after[i] == clients[i]);
            assert(!(clients[i].adress == c.adress && clients[i].port == c.port));
        }
    }
}

/// Every ticker that a command announces is one the server knows, and an
/// accepted client subscribes to exactly the announced tickers, at least
/// one, and starts out not alive.
pub proof fn lemma_command_tickers_are_known(
    line: Seq<char>,
    known: Seq<Seq<char>>,
    clients: Seq<ClientView>,
)
    ensures
        forall|i: int|
            0 <= i < spec_parse_command(line, known, clients).1.len() ==> known.contains(
                #[trigger] spec_parse_command(line, known, clients).1[i],
            ),
        spec_parse_command(line, known, clients).0 matches Ok(c) ==> {
            &&& c.ticker == spec_parse_command(line, known, clients).1
            &&& c.ticker.len() > 0
            &&& !c.alive
        },
{
    let words = ascii_words(line);
    if words.len() == 3 && words[0] == "STREAM"@ {
        if let Ok((host, port)) = spec_parse_udp_address(words[1]) {
            let requested = split_on(words[2], ',');
            let k = first_unknown(requested, known);
            if exists|k: int| is_first_unknown(requested, known, k) {
                let k0 = choose|k: int| is_first_unknown(requested, known, k);
                assert forall|i: int| 0 <= i < requested.take(k0).len() implies known.contains(
                    #[trigger] requested.take(k0)[i],
                ) by {
                    assert(requested.take(k0)[i] == requested[i]);
                }
            } else {
                assert forall|i: int| 0 <= i < requested.len() implies known.contains(
                    #[trigger] requested[i],
                ) by {
                    if !known.contains(requested[i]) {
                        lemma_some_first_unknown(requested, known, i);
                    }
                }
            }
        }
    }
}

/// If some requested ticker is unknown, there is a first one.
proof fn lemma_some_first_unknown(requested: Seq<Seq<char>>, known: Seq<Seq<char>>, i: int)
    requires
        0 <= i < requested.len(),
        !known.contains(requested[i]),
    ensures
        exists|k: int| is_first_unknown(requested, known, k),
    decreases i,
{
    if forall|j: int| 0 <= j < i ==> known.contains(#[trigger] requested[j]) {
        assert(is_first_unknown(requested, known, i));
    } else {
        let j = choose|j: int| 0 <= j < i && !known.contains(#[trigger] requested[j]);
        lemma_some_first_unknown(requested, known, j);
    }
}

/// An endpoint is taken exactly when some registered client streams to
/// that very host and port; how many clients there are plays no part.
pub proof fn lemma_endpoint_taken_iff_same_endpoint(
    clients: Seq<ClientView>,
    host: Seq<char>,
    port: u16,
)
    ensures
        endpoint_taken(clients, host, port) <==> exists|i: int|
            0 <= i < clients.len() && (#[trigger] clients[i]).adress == host && clients[i].port
                == port,
{
    if exists|i: int| 0 <= i < clients.len() && (#[trigger] clients[i]).adress == host && clients[i].port == port {
        let i = choose|i: int|
            0 <= i < clients.len() && (#[trigger] clients[i]).adress == host && clients[i].port == port;
        assert(clients[i].adress == host);
    }
}

/// A line that does not consist of exactly three words, the first being
/// `STREAM`, is refused with the usage reply and announces nothing.
pub proof fn lemma_wrong_shape_refused(
    line: Seq<char>,
    known: Seq<Seq<char>>,
    clients: Seq<ClientView>,
)
    requires
        ascii_words(line).len() != 3 || ascii_words(line)[0] != "STREAM"@,
    ensures
        spec_parse_command(line, known, clients) == (
            Err::<ClientView, ServerErrorView>(
                ServerErrorView::SendServer(
                    "correct command: STREAM udp://<host>:<port> <ticker1,ticker2>"@,
                ),
            ),
            Seq::<Seq<char>>::empty(),
        ),
{
}

/// The first unknown ticker is unknown and every ticker before it is
/// known; when every ticker is known there is none.
pub proof fn lemma_first_unknown_laws(requested: Seq<Seq<char>>, known: Seq<Seq<char>>)
    ensures
        0 <= first_unknown(requested, known) <= requested.len(),
        forall|j: int|
            0 <= j < first_unknown(requested, known) ==> known.contains(#[trigger] requested[j]),
        first_unknown(requested, known) < requested.len() ==> !known.contains(
            requested[first_unknown(requested, known)],
        ),
        first_unknown(requested, known) == requested.len() <==> forall|j: int|
            0 <= j < requested.len() ==> known.contains(#[trigger] requested[j]),
{
    if exists|k: int| is_first_unknown(requested, known, k) {
        let k = choose|k: int| is_first_unknown(requested, known, k);
        assert(!known.contains(requested[k]));
    } else {
        assert forall|j: int| 0 <= j < requested.len() implies known.contains(
            #[trigger] requested[j],
        ) by {
            if !known.contains(requested[j]) {
                lemma_some_first_unknown(requested, known, j);
            }
        }
    }
}

/// The host written on a missing port is the host the URL parser found.
pub proof fn lemma_url_host(address: Seq<char>)
    ensures
        url_components(address) matches Some((_, Some(h), _)) ==> spec_url_host(address) == h,
{
}

/// A well-formed command for a valid address is refused for the first
/// unknown ticker, announcing the tickers before it; with every ticker
/// known it is refused if and only if some client already streams to the
/// same host and port, and otherwise accepted for exactly that endpoint and
/// those tickers, announcing them all.
pub proof fn lemma_command_outcomes(
    line: Seq<char>,
    known: Seq<Seq<char>>,
    clients: Seq<ClientView>,
    host: Seq<char>,
    port: u16,
    k: int,
)
    requires
        ascii_words(line).len() == 3,
        ascii_words(line)[0] == "STREAM"@,
        spec_parse_udp_address(ascii_words(line)[1]) == Ok::<(Seq<char>, u16), UdpAddressError>(
            (host, port),
        ),
    ensures
        ({
            let req = split_on(ascii_words(line)[2], ',');
            &&& (0 <= k < req.len() && !known.contains(req[k]) && forall|j: int|
                0 <= j < k ==> known.contains(#[trigger] req[j])) ==> spec_parse_command(
                line,
                known,
                clients,
            ) == (Err::<ClientView, ServerErrorView>(ServerErrorView::TickerNotFound(req[k])), req.take(
                k,
            ))
            &&& ((forall|j: int| 0 <= j < req.len() ==> known.contains(#[trigger] req[j]))
                && exists|i: int|
                0 <= i < clients.len() && (#[trigger] clients[i]).adress == host && clients[i].port
                    == port) ==> spec_parse_command(line, known, clients) == (
                Err::<ClientView, ServerErrorView>(
                    ServerErrorView::SendServer(
                        "A stream with these settings has already been launched"@,
                    ),
                ),
                req,
            )
            &&& ((forall|j: int| 0 <= j < req.len() ==> known.contains(#[trigger] req[j]))
                && !exists|i: int|
                0 <= i < clients.len() && (#[trigger] clients[i]).adress == host && clients[i].port
                    == port) ==> spec_parse_command(line, known, clients) == (
                Ok::<ClientView, ServerErrorView>(
                    ClientView { adress: host, port: port, ticker: req, alive: false },
                ),
                req,
            )
        }),
{
    let req = split_on(ascii_words(line)[2], ',');
    lemma_first_unknown_laws(req, known);
    lemma_endpoint_taken_iff_same_endpoint(clients, host, port);
    if 0 <= k < req.len() && !known.contains(req[k]) && forall|j: int|
        0 <= j < k ==> known.contains(#[trigger] req[j]) {
        let f = first_unknown(req, known);
        if f < k {
            assert(known.contains(req[f]));
        } else if f > k {
            assert(known.contains(req[k]));
        }
    }
}

} // verus!
