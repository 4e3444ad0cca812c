//! The traded volume of a quote: where it starts and how it moves from one
//! update to the next.

use vstd::prelude::*;

verus! {

/// Tickers that start with a larger volume.
pub open spec fn is_major_ticker(ticker: Seq<char>) -> bool {
    ticker == "AAPL"@ || ticker == "MSFT"@ || ticker == "TSLA"@
}

/// The smallest volume a new quote of `ticker` can start with.
pub open spec fn spec_volume_base(ticker: Seq<char>) -> u32 {
    if is_major_ticker(ticker) {
        1000
    } else {
        100
    }
}

/// How many different volumes a new quote of `ticker` can start with.
pub open spec fn spec_volume_span(ticker: Seq<char>) -> u32 {
    if is_major_ticker(ticker) {
        5000
    } else {
        1000
    }
}

/// Whether `ticker` is one of the tickers that start with a larger volume.
fn is_major(ticker: &str) -> (r: bool)
    ensures
        r == is_major_ticker(ticker@),
{
    let t = String::from_str(ticker);
    t == String::from_str("AAPL") || t == String::from_str("MSFT") || t == String::from_str("TSLA")
}

/// How many different volumes a new quote of `ticker` can start with; a new
/// quote draws one of them uniformly.
pub fn volume_span(ticker: &str) -> (span: u32)
    ensures
        span == spec_volume_span(ticker@),
{
    if is_major(ticker) {
        5000
    } else {
        1000
    }
}

/// The starting volume of a new quote of `ticker`, given the `draw` in
/// `0..volume_span(ticker)`.
pub fn initial_volume(ticker: &str, draw: u32) -> (volume: u32)
    requires
        draw < spec_volume_span(ticker@),
    ensures
        volume == spec_volume_base(ticker@) + draw,
{
    if is_major(ticker) {
        1000 + draw
    } else {
        100 + draw
    }
}

/// The volume after an update: a positive volume scaled by `percent`
/// percent (rounded down), an exhausted one replaced by `refill`.
pub open spec fn spec_next_volume(volume: u32, percent: u32, refill: u32) -> int {
    if volume > 0 {
        volume * percent / 100
    } else {
        refill as int
    }
}

/// The volume after an update: a positive volume scaled by `percent`
/// percent (rounded down), an exhausted one replaced by `refill`. The
/// product must fit in `u32`.
pub fn next_volume(volume: u32, percent: u32, refill: u32) -> (next: u32)
    requires
        volume > 0 ==> volume * percent <= u32::MAX,
    ensures
        next == spec_next_volume(volume, percent, refill),
        volume > 0 ==> next == volume * percent / 100,
        volume == 0 ==> next == refill,
{
    if volume > 0 {
        volume * percent / 100
    } else {
        refill
    }
}

/// A number drawn by `rand::random_range(low..high)`, which is always in
/// `low..high` and panics only when that range is empty.
#[verifier::external_body]
fn random_between(low: u32, high: u32) -> (r: u32)
    requires
        low < high,
    ensures
        low <= r < high,
{
    rand::random_range(low..high)
}

/// Updates a volume: a positive volume is scaled by `percent` percent
/// (rounded down); an exhausted one is refilled with a random volume in
/// `1000..2000`. The product must fit in `u32`.
pub fn update_volume(volume: u32, percent: u32) -> (next: u32)
    requires
        volume > 0 ==> volume * percent <= u32::MAX,
    ensures
        volume > 0 ==> next == volume * percent / 100,
        volume == 0 ==> 1000 <= next < 2000,
{
    let refill = if volume > 0 {
        0
    } else {
        random_between(1000, 2000)
    };
    next_volume(volume, percent, refill)
}

/// Exactly the tickers AAPL, MSFT and TSLA start with a volume in
/// `1000..6000`; every other ticker starts with one in `100..1100`.
pub proof fn lemma_volume_ranges(ticker: Seq<char>)
    ensures
        (ticker == "AAPL"@ || ticker == "MSFT"@ || ticker == "TSLA"@) ==> spec_volume_base(ticker)
            == 1000 && spec_volume_span(ticker) == 5000,
        !(ticker == "AAPL"@ || ticker == "MSFT"@ || ticker == "TSLA"@) ==> spec_volume_base(ticker)
            == 100 && spec_volume_span(ticker) == 1000,
{
}

} // verus!
