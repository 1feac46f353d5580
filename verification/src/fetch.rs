//! The resilient fetch layer: the retry policy with fixed backoff, the
//! listing-page url template, and the fixed field set of the add-to-cart
//! form submission that reveals stock.
//!
//! The policy itself is a pure function of the attempt outcomes, so it is
//! stated and verified here over a sequence of outcomes; the live loop around
//! the HTTP client consults `should_retry` and obeys the same bound.
use vstd::prelude::*;

use crate::text::{decimal_string_i64, spec_decimal_string};

verus! {

/// How many times a failed request is retried after its first attempt.
pub const RETRY_COUNT: u8 = 10;

/// The fixed pacing and backoff interval, in seconds.
pub const PACING_SECONDS: u64 = 1;

/// What one run of the retry loop did: the body that was finally fetched (or
/// nothing, when every attempt failed), how many attempts were made, and how
/// many pacing waits were inserted between them.
pub struct FetchRun {
    pub result: Option<String>,
    pub attempts: u8,
    pub waits: u8,
}

/// The outcome of attempt `i` in a pre-listed outcome sequence; an attempt
/// past the end of the list fails.
pub open spec fn spec_attempt(outcomes: Seq<Option<String>>, i: int) -> Option<String> {
    if 0 <= i < outcomes.len() {
        outcomes[i]
    } else {
        None
    }
}

/// Whether the retry loop tries again after this many failures in a row.
pub fn should_retry(failures: u8) -> (r: bool)
    ensures
        r == (failures <= RETRY_COUNT),
{
    failures <= RETRY_COUNT
}

/// Runs the retry policy against a sequence of attempt outcomes: attempts are
/// made in order until one succeeds or the bound of one first attempt plus
/// `RETRY_COUNT` retries is exhausted, with one pacing wait after every
/// failed attempt but the last.
pub fn run_with_retries(outcomes: &Vec<Option<String>>) -> (r: FetchRun)
    ensures
        1 <= r.attempts <= RETRY_COUNT + 1,
        forall|j: int| 0 <= j < r.attempts - 1 ==> spec_attempt(outcomes@, j) is None,
        match r.result {
            Some(body) => {
                &&& spec_attempt(outcomes@, r.attempts - 1) == Some(body)
                &&& r.waits == r.attempts - 1
            },
            None => {
                &&& r.attempts == RETRY_COUNT + 1
                &&& spec_attempt(outcomes@, RETRY_COUNT as int) is None
                &&& r.waits == RETRY_COUNT
            },
        },
{
    let mut i: u8 = 0;
    while i <= RETRY_COUNT
        invariant
            0 <= i <= RETRY_COUNT + 1,
            forall|j: int| 0 <= j < i ==> spec_attempt(outcomes@, j) is None,
        decreases RETRY_COUNT + 1 - i,
    {
        let idx = i as usize;
        if idx < outcomes.len() {
            match &outcomes[idx] {
                Some(body) => {
                    return FetchRun { result: Some(body.clone()), attempts: i + 1, waits: i };
                },
                None => {},
            }
        }
        i = i + 1;
    }
    FetchRun { result: None, attempts: i, waits: RETRY_COUNT }
}

/// The listing-page url for one page number: the page number sits between the
/// fixed site prefix and suffix.
pub fn make_url(page_num: &i32) -> (r: String)
    ensures
        r@ == "https://www.jeepchryslerparts.pl/sklep/wszystkie-marki/"@ + spec_decimal_string(
            *page_num as int,
        ) + "/wszystkie-marki.html"@,
{
    let mut r = String::from_str("https://www.jeepchryslerparts.pl/sklep/wszystkie-marki/");
    let num = decimal_string_i64(*page_num as i64);
    r.append(num.as_str());
    r.append("/wszystkie-marki.html");
    r
}

/// The fixed field set of the stock-revealing form submission: a large
/// quantity, the shop-internal product id, and the add-to-cart flag.
pub fn stock_form_fields(shop_id: i64) -> (r: Vec<(String, String)>)
    ensures
        r.deep_view().len() == 3,
        r.deep_view()[0] == ("ilosc_prod"@, "10000"@),
        r.deep_view()[1] == ("produkt_id"@, spec_decimal_string(shop_id as int)),
        r.deep_view()[2] == ("dodajdokoszyka"@, Seq::<char>::empty()),
{
    let mut r: Vec<(String, String)> = Vec::new();
    r.push((String::from_str("ilosc_prod"), String::from_str("10000")));
    r.push((String::from_str("produkt_id"), decimal_string_i64(shop_id)));
    r.push((String::from_str("dodajdokoszyka"), String::new()));
    r
}

} // verus!
