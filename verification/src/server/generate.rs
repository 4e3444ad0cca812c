//! The fan-out of quote updates: which subscribed clients receive the quote
//! of a ticker, and the bookkeeping that keeps one quote per ticker.

use vstd::prelude::*;

use crate::server::model::{client_views, Client, ClientView};
use crate::text::{contains_string, string_views};

verus! {

/// The generator that periodically updates the quotes and sends each one to
/// the clients subscribed to its ticker.
pub struct QuoteGenerator;

/// Whether `client` subscribed to `ticker`.
pub open spec fn subscribed(client: ClientView, ticker: Seq<char>) -> bool {
    client.ticker.contains(ticker)
}

impl QuoteGenerator {
    /// The positions in `clients` of the clients subscribed to `ticker`, in
    /// increasing order.
    pub fn subscribers(clients: &Vec<Client>, ticker: &String) -> (r: Vec<usize>)
        ensures
            forall|k: int|
                0 <= k < r@.len() ==> #[trigger] r@[k] < clients@.len() && subscribed(
                    clients@[r@[k] as int]@,
                    ticker@,
                ),
            forall|k1: int, k2: int| 0 <= k1 < k2 < r@.len() ==> r@[k1] < r@[k2],
            forall|i: int|
                0 <= i < clients@.len() && subscribed(#[trigger] clients@[i]@, ticker@) ==> r@.contains(
                    i as usize,
                ),
            forall|i: int|
                #![trigger clients@[i]]
                0 <= i < clients@.len() ==> (r@.contains(i as usize) <==> exists|j: int|
                    0 <= j < clients@[i].ticker@.len() && (#[trigger] clients@[i].ticker@[j])@
                        == ticker@),
    {
        let mut r: Vec<usize> = Vec::new();
        let mut i: usize = 0;
        while i < clients.len()
            invariant
                i <= clients@.len(),
                forall|k: int|
                    0 <= k < r@.len() ==> #[trigger] r@[k] < i && subscribed(
                        clients@[r@[k] as int]@,
                        ticker@,
                    ),
                forall|k1: int, k2: int| 0 <= k1 < k2 < r@.len() ==> r@[k1] < r@[k2],
                forall|j: int|
                    0 <= j < i && subscribed(#[trigger] clients@[j]@, ticker@) ==> r@.contains(
                        j as usize,
                    ),
            decreases clients@.len() - i,
        {
            let ghost before = r@;
            let hit = contains_string(&clients[i].ticker, ticker);
            assert(hit == subscribed(clients@[i as int]@, ticker@));
            if hit {
                r.push(i);
                assert(r@[r@.len() - 1] == i);
            }
            assert forall|j: int|
                0 <= j < i + 1 && subscribed(#[trigger] clients@[j]@, ticker@) implies r@.contains(
                j as usize,
            ) by {
                if j < i {
                    let k = choose|k: int| 0 <= k < before.len() && before[k] == j as usize;
                    assert(r@[k] == j as usize);
                } else {
                    assert(r@[r@.len() - 1] == i);
                }
            }
            i = i + 1;
        }
        proof {
            assert forall|i: int|
                #![trigger clients@[i]]
                0 <= i < clients@.len() implies (r@.contains(i as usize) <==> exists|
                j: int,
            |
                0 <= j < clients@[i].ticker@.len() && (#[trigger] clients@[i].ticker@[j])@
                    == ticker@) by {
                let c = clients@[i];
                lemma_subscribed_iff_listed(c@, ticker@);
                if r@.contains(i as usize) {
                    let k = choose|k: int| 0 <= k < r@.len() && r@[k] == i as usize;
                    assert(r@[k] < clients@.len());
                    assert(subscribed(c@, ticker@));
                    let j = choose|j: int| 0 <= j < c@.ticker.len() && c@.ticker[j] == ticker@;
                    assert(c@.ticker[j] == c.ticker@[j]@);
                }
                if exists|j: int| 0 <= j < c.ticker@.len() && (#[trigger] c.ticker@[j])@ == ticker@ {
                    let j = choose|j: int| 0 <= j < c.ticker@.len() && (#[trigger] c.ticker@[j])@
                        == ticker@;
                    assert(c@.ticker[j] == c.ticker@[j]@);
                    assert(subscribed(c@, ticker@));
                }
            }
        }
        r
    }
}

/// Whether a list of tickers names no ticker twice.
pub open spec fn no_repeats(s: Seq<Seq<char>>) -> bool {
    forall|i: int, j: int| 0 <= i < j < s.len() ==> s[i] != s[j]
}

/// The quote book after a ticker is announced: a quote is added for the
/// ticker unless the book already has one.
pub open spec fn book_after(book: Seq<Seq<char>>, ticker: Seq<char>) -> Seq<Seq<char>> {
    if book.contains(ticker) {
        book
    } else {
        book.push(ticker)
    }
}

/// Whether a quote must be created for `ticker`: the book of existing quote
/// tickers has none for it.
pub fn needs_quote(book: &Vec<String>, ticker: &String) -> (r: bool)
    ensures
        r == !string_views(book@).contains(ticker@),
{
    !contains_string(book, ticker)
}

/// Announcing a ticker keeps the quote book free of repeated tickers, and
/// afterwards the book has a quote for that ticker.
pub proof fn lemma_announce_keeps_book_unique(book: Seq<Seq<char>>, ticker: Seq<char>)
    requires
        no_repeats(book),
    ensures
        no_repeats(book_after(book, ticker)),
        book_after(book, ticker).contains(ticker),
{
    if !book.contains(ticker) {
        let after = book.push(ticker);
        assert forall|i: int, j: int| 0 <= i < j < after.len() implies after[i] != after[j] by {
            if j == book.len() {
                assert(after[i] == book[i]);
            }
        }
        assert(after[book.len() as int] == ticker);
    }
}

/// A client subscribes to a ticker exactly when the ticker occurs somewhere
/// in its list of tickers, at whatever position.
pub proof fn lemma_subscribed_iff_listed(c: ClientView, t: Seq<char>)
    ensures
        subscribed(c, t) <==> exists|j: int| 0 <= j < c.ticker.len() && c.ticker[j] == t,
{
}

} // verus!
