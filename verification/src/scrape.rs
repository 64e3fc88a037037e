//! Scraping a reference price from the public fund price feed: the one
//! known source, the feed URL with its lookback window, and trimming a
//! feed timestamp to its calendar day.

use vstd::prelude::*;
use crate::dates::{
    format_date, lookback_start, spec_date_str, spec_minus_days, spec_valid_date, LOOKBACK_DAYS,
};

verus! {

/// The code of the only scrapeable source.
pub fn known_source_code() -> (r: &'static str)
    ensures
        r@ == "IE00B3X1NT05"@,
{
    "IE00B3X1NT05"
}

/// The listing of scrapeable sources: one line per source, its code and
/// its name separated by a tab.
pub fn scrape_sources_text() -> (r: String)
    ensures
        r@ == "IE00B3X1NT05\tVanguard Global Small-Cap Index Fund"@,
{
    String::from_str("IE00B3X1NT05\tVanguard Global Small-Cap Index Fund")
}

/// Whether `code` names a scrapeable source.
pub fn is_known_source(code: &str) -> (r: bool)
    ensures
        r == (code@ == "IE00B3X1NT05"@),
{
    let wanted: String = String::from_str("IE00B3X1NT05");
    let given: String = code.to_owned();
    given == wanted
}

/// What the `scrape` command does for its arguments.
pub enum ScrapeAction {
    /// Print the source listing; no network call is performed.
    ListSources,
    /// Fetch the feed of the known source.
    FetchKnownSource,
    /// The code names no known source; fail before any network call.
    UnknownCode,
}

/// Decides the `scrape` command: the listing flag alone prints the
/// sources and never fetches; otherwise the code must name a known source.
pub fn decide_scrape(list_flag: bool, code: &str) -> (r: ScrapeAction)
    ensures
        list_flag ==> r == ScrapeAction::ListSources,
        !list_flag && code@ == "IE00B3X1NT05"@ ==> r == ScrapeAction::FetchKnownSource,
        !list_flag && code@ != "IE00B3X1NT05"@ ==> r == ScrapeAction::UnknownCode,
{
    if list_flag {
        ScrapeAction::ListSources
    } else if is_known_source(code) {
        ScrapeAction::FetchKnownSource
    } else {
        ScrapeAction::UnknownCode
    }
}

/// A feed timestamp cut down to its calendar day: the first ten
/// characters, which hold `YYYY-MM-DD`, with any time and zone suffix
/// discarded. A shorter string is kept whole.
pub fn truncate_to_day(s: &str) -> (r: String)
    ensures
        s@.len() >= 10 ==> r@ == s@.take(10),
        s@.len() < 10 ==> r@ == s@,
{
    let n = s.unicode_len();
    if n >= 10 {
        s.substring_char(0, 10).to_owned()
    } else {
        s.to_owned()
    }
}

/// One record of the price feed: its timestamp and its price, both as
/// the feed writes them.
pub struct FeedEntry {
    pub date: String,
    pub price: String,
}

/// The most recent feed record: the feed lists newest first, so it is the
/// first one, with its timestamp cut down to the calendar day. `None`
/// exactly when the feed returned no records.
pub fn latest_feed_price(entries: &Vec<FeedEntry>) -> (r: Option<(String, String)>)
    ensures
        r is Some <==> entries@.len() > 0,
        r is Some ==> {
            &&& entries@[0].date@.len() >= 10 ==> r->Some_0.0@ == entries@[0].date@.take(10)
            &&& entries@[0].date@.len() < 10 ==> r->Some_0.0@ == entries@[0].date@
            &&& r->Some_0.1@ == entries@[0].price@
        },
{
    if entries.len() == 0 {
        None
    } else {
        let first = &entries[0];
        Some((truncate_to_day(first.date.as_str()), first.price.clone()))
    }
}

/// The line the `scrape` command prints: source code, calendar day and
/// price, separated by tabs.
pub fn scrape_report_line(code: &str, date: &str, price: &str) -> (r: String)
    ensures
        r@ == code@ + "\t"@ + date@ + "\t"@ + price@,
{
    let mut line = code.to_owned();
    line.append("\t");
    line.append(date);
    line.append("\t");
    line.append(price);
    line
}

/// The feed query for the price history between `start` and `end`, both
/// written as `YYYY-MM-DD`.
pub open spec fn spec_scrape_url(start: Seq<char>, end: Seq<char>) -> Seq<char> {
    "https://api.vanguard.com/rs/gre/gra/1.7.0//datasets/urd-product-port-specific-price-history.json?vars=portId%3A9158%2CissueType%3AS%2CstartDate%3A"@
        + start + "%2CendDate%3A"@ + end
}

/// Builds the feed URL whose window reaches from `LOOKBACK_DAYS` days
/// before `(y, m, d)` up to `(y, m, d)` itself.
pub fn scrape_url_for_day(y: u32, m: u32, d: u32) -> (r: String)
    requires
        spec_valid_date(y as int, m as int, d as int),
        1 <= y <= 9999,
    ensures
        r@ == spec_scrape_url(
            spec_date_str_of(spec_minus_days(y as int, m as int, d as int, LOOKBACK_DAYS as nat)),
            spec_date_str(y as int, m as int, d as int),
        ),
{
    let (sy, sm, sd) = lookback_start(y, m, d);
    let start = format_date(sy, sm, sd);
    let end = format_date(y, m, d);
    let mut u = String::from_str(
        "https://api.vanguard.com/rs/gre/gra/1.7.0//datasets/urd-product-port-specific-price-history.json?vars=portId%3A9158%2CissueType%3AS%2CstartDate%3A",
    );
    u.append(start.as_str());
    u.append("%2CendDate%3A");
    u.append(end.as_str());
    proof {
        assert(u@ =~= spec_scrape_url(start@, end@));
    }
    u
}

/// `spec_date_str` applied to a date triple.
pub open spec fn spec_date_str_of(date: (int, int, int)) -> Seq<char> {
    spec_date_str(date.0, date.1, date.2)
}

/// Relies on chrono's `Utc::now`, `DateTime::date_naive` and the
/// `Datelike` accessors `year`, `month` and `day`: a `NaiveDate` holds
/// only valid calendar dates, with the month from 1 to 12, the day from 1
/// to the month's length, and the year far inside `i32`.
#[verifier::external_body]
fn today_utc() -> (r: (i32, u32, u32))
    ensures
        spec_valid_date(r.0 as int, r.1 as int, r.2 as int),
        -262143 <= r.0 <= 262143,
{
    let today = chrono::Utc::now().date_naive();
    (
        chrono::Datelike::year(&today),
        chrono::Datelike::month(&today),
        chrono::Datelike::day(&today),
    )
}

/// The feed URL for a window ending today (in UTC). `None` only when the
/// clock reports a year outside the four-digit range the feed's date
/// format can carry.
pub fn current_scrape_url() -> (r: Option<String>)
    ensures
        r is Some ==> exists|y: int, m: int, d: int|
            {
                &&& #[trigger] spec_valid_date(y, m, d)
                &&& 1 <= y <= 9999
                &&& r->Some_0@ == spec_scrape_url(
                    spec_date_str_of(spec_minus_days(y, m, d, LOOKBACK_DAYS as nat)),
                    spec_date_str(y, m, d),
                )
            },
{
    let (y, m, d) = today_utc();
    if 1 <= y && y <= 9999 {
        let url = scrape_url_for_day(y as u32, m, d);
        proof {
            assert(spec_valid_date(y as int, m as int, d as int));
        }
        Some(url)
    } else {
        None
    }
}

} // verus!
