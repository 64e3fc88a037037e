use sharesight_prices::dates::parse_date;
use sharesight_prices::scrape::{
    current_scrape_url, decide_scrape, is_known_source, known_source_code, latest_feed_price,
    scrape_report_line, scrape_sources_text, scrape_url_for_day, truncate_to_day, FeedEntry,
    ScrapeAction,
};

const FEED_BASE: &str = "https://api.vanguard.com/rs/gre/gra/1.7.0//datasets/urd-product-port-specific-price-history.json?vars=portId%3A9158%2CissueType%3AS%2CstartDate%3A";

#[test]
fn truncates_feed_timestamps_to_the_day() {
    assert_eq!(truncate_to_day("2022-01-12T00:00:00-05:00"), "2022-01-12");
    assert_eq!(truncate_to_day("2022-01-12"), "2022-01-12");
    assert_eq!(truncate_to_day("short"), "short");
}

#[test]
fn source_listing_is_not_empty_and_needs_no_network() {
    let listing = scrape_sources_text();
    assert!(!listing.is_empty());
    assert_eq!(listing, "IE00B3X1NT05\tVanguard Global Small-Cap Index Fund");
    assert!(matches!(decide_scrape(true, "anything"), ScrapeAction::ListSources));
}

#[test]
fn only_the_known_source_is_scrapeable() {
    assert!(is_known_source("IE00B3X1NT05"));
    assert!(!is_known_source("IE00B3X1NT04"));
    assert!(!is_known_source(""));
    assert_eq!(known_source_code(), "IE00B3X1NT05");
    assert!(matches!(
        decide_scrape(false, "IE00B3X1NT05"),
        ScrapeAction::FetchKnownSource
    ));
    assert!(matches!(decide_scrape(false, "nope"), ScrapeAction::UnknownCode));
}

#[test]
fn report_line_is_tab_separated() {
    assert_eq!(
        scrape_report_line("IE00B3X1NT05", "2022-01-12", "398.2687"),
        "IE00B3X1NT05\t2022-01-12\t398.2687"
    );
}

#[test]
fn feed_url_reaches_back_ten_days() {
    let url = scrape_url_for_day(2022, 1, 13);
    assert_eq!(
        url,
        format!("{}2022-01-03%2CendDate%3A2022-01-13", FEED_BASE)
    );
}

#[test]
fn feed_window_crosses_months_and_leap_days() {
    let url = scrape_url_for_day(2020, 3, 5);
    assert_eq!(
        url,
        format!("{}2020-02-24%2CendDate%3A2020-03-05", FEED_BASE)
    );
    let url = scrape_url_for_day(2021, 3, 5);
    assert_eq!(
        url,
        format!("{}2021-02-23%2CendDate%3A2021-03-05", FEED_BASE)
    );
    let url = scrape_url_for_day(2022, 1, 5);
    assert_eq!(
        url,
        format!("{}2021-12-26%2CendDate%3A2022-01-05", FEED_BASE)
    );
}

#[test]
fn todays_feed_url_holds_two_real_dates() {
    let url = current_scrape_url().expect("the clock is inside the supported range");
    assert!(url.starts_with(FEED_BASE));
    let rest = &url[FEED_BASE.len()..];
    let (start, rest) = rest.split_at(10);
    assert!(parse_date(start).is_some());
    let rest = rest.strip_prefix("%2CendDate%3A").expect("separator");
    assert_eq!(rest.len(), 10);
    assert!(parse_date(rest).is_some());
    assert!(start < rest);
}

#[test]
fn latest_feed_entry_is_the_first_with_its_day() {
    let entries = vec![
        FeedEntry {
            date: "2022-01-12T00:00:00-05:00".to_string(),
            price: "398.2687".to_string(),
        },
        FeedEntry {
            date: "2022-01-11T00:00:00-05:00".to_string(),
            price: "398.982".to_string(),
        },
    ];
    assert_eq!(
        latest_feed_price(&entries),
        Some(("2022-01-12".to_string(), "398.2687".to_string()))
    );
    assert_eq!(latest_feed_price(&Vec::new()), None);
}
