use log_analyzer::entities::error_rate::ErrorRate;
use log_analyzer::entities::{AnalyzerResult, DailyAnalyzerResult};

fn day(date: &str, requests: u32, c2: u32, c3: u32, c4: u32, c5: u32) -> DailyAnalyzerResult {
    let mut d = DailyAnalyzerResult::new(String::from(date));
    d.add_daily_requests_number(requests);
    d.add_daily_2xx_requests_number(c2);
    d.add_daily_3xx_requests_number(c3);
    d.add_daily_4xx_requests_number(c4);
    d.add_daily_5xx_requests_number(c5);
    d.calculate_daily_error_rate();
    d
}

fn row(d: &DailyAnalyzerResult) -> (String, u32, u32, u32, u32, u32) {
    (
        d.date.clone(),
        d.daily_requests_number,
        d.daily_2xx_requests_number,
        d.daily_3xx_requests_number,
        d.daily_4xx_requests_number,
        d.daily_5xx_requests_number,
    )
}

fn totals(r: &AnalyzerResult) -> [u32; 5] {
    [
        r.total_requests_number,
        r.total_2xx_requests_number,
        r.total_3xx_requests_number,
        r.total_4xx_requests_number,
        r.total_5xx_requests_number,
    ]
}

fn sample() -> AnalyzerResult {
    let mut r = AnalyzerResult::new();
    r.add_daily_result(day("a", 10, 4, 3, 2, 1));
    r.add_daily_result(day("b", 5, 1, 1, 1, 1));
    r.add_daily_result(day("c", 1, 0, 0, 0, 0));
    r
}

#[test]
fn new_result_is_empty() {
    let r = AnalyzerResult::new();
    assert!(r.daily_results.is_empty());
    assert_eq!(totals(&r), [0, 0, 0, 0, 0]);
    assert_eq!(r.total_error_rate, ErrorRate { numerator: 0, denominator: 1 });
}

#[test]
fn add_daily_result_appends() {
    let r = sample();
    assert_eq!(r.daily_results.len(), 3);
    assert_eq!(row(&r.daily_results[0]), (String::from("a"), 10, 4, 3, 2, 1));
    assert_eq!(row(&r.daily_results[1]), (String::from("b"), 5, 1, 1, 1, 1));
    assert_eq!(row(&r.daily_results[2]), (String::from("c"), 1, 0, 0, 0, 0));
    assert_eq!(totals(&r), [0, 0, 0, 0, 0]);
}

#[test]
fn each_total_is_computed_alone() {
    let mut r = sample();
    r.calculate_total_requests_number();
    assert_eq!(totals(&r), [16, 0, 0, 0, 0]);
    r.calculate_total_2xx_requests_number();
    assert_eq!(totals(&r), [16, 5, 0, 0, 0]);
    r.calculate_total_3xx_requests_number();
    assert_eq!(totals(&r), [16, 5, 4, 0, 0]);
    r.calculate_total_4xx_requests_number();
    assert_eq!(totals(&r), [16, 5, 4, 3, 0]);
    r.calculate_total_5xx_requests_number();
    assert_eq!(totals(&r), [16, 5, 4, 3, 2]);
    assert_eq!(r.total_error_rate, ErrorRate { numerator: 0, denominator: 1 });
    r.calculate_total_error_rate();
    assert_eq!(r.total_error_rate, ErrorRate { numerator: 5, denominator: 16 });
    assert_eq!(r.daily_results.len(), 3);
}

#[test]
fn totals_are_recomputed_not_accumulated() {
    let mut r = sample();
    r.calculate_everything();
    r.calculate_everything();
    assert_eq!(totals(&r), [16, 5, 4, 3, 2]);
}

#[test]
fn calculate_everything_seals() {
    let mut r = sample();
    r.calculate_everything();
    assert_eq!(totals(&r), [16, 5, 4, 3, 2]);
    assert_eq!(r.total_error_rate, ErrorRate { numerator: 5, denominator: 16 });
    assert_eq!(r.total_error_rate.numerator as f64 / r.total_error_rate.denominator as f64, 0.3125);
    assert_eq!(row(&r.daily_results[0]), (String::from("a"), 10, 4, 3, 2, 1));
    assert_eq!(r.daily_results.len(), 3);
}

#[test]
fn totals_conserve_the_daily_counters() {
    let mut r = AnalyzerResult::new();
    for (d, s) in [("x", "200"), ("y", "404"), ("x", "500"), ("z", "301"), ("y", "100"), ("x", "201")] {
        r.record(d, s);
    }
    r.calculate_everything();
    let sum = |f: fn(&DailyAnalyzerResult) -> u32| r.daily_results.iter().map(f).sum::<u32>();
    assert_eq!(r.total_requests_number, sum(|d| d.daily_requests_number));
    assert_eq!(r.total_2xx_requests_number, sum(|d| d.daily_2xx_requests_number));
    assert_eq!(r.total_3xx_requests_number, sum(|d| d.daily_3xx_requests_number));
    assert_eq!(r.total_4xx_requests_number, sum(|d| d.daily_4xx_requests_number));
    assert_eq!(r.total_5xx_requests_number, sum(|d| d.daily_5xx_requests_number));
    assert_eq!(totals(&r), [6, 2, 1, 1, 1]);
}

#[test]
fn total_error_rate_of_empty_result_is_zero() {
    let mut r = AnalyzerResult::new();
    r.calculate_everything();
    assert_eq!(totals(&r), [0, 0, 0, 0, 0]);
    assert_eq!(r.total_error_rate, ErrorRate { numerator: 0, denominator: 1 });
    assert_eq!(r.total_error_rate.numerator as f64 / r.total_error_rate.denominator as f64, 0.0);
}

#[test]
fn totals_reach_the_largest_count() {
    let mut r = AnalyzerResult::new();
    r.add_daily_result(day("a", u32::MAX - 1, 0, 0, u32::MAX - 1, 0));
    r.add_daily_result(day("b", 1, 0, 0, 0, 1));
    r.calculate_everything();
    assert_eq!(totals(&r), [u32::MAX, 0, 0, u32::MAX - 1, 1]);
    assert_eq!(r.total_error_rate, ErrorRate { numerator: u32::MAX as u64, denominator: u32::MAX as u64 });
}

#[test]
fn lookup_finds_day_by_exact_key() {
    let mut r = sample();
    match r.get_daily_result_if_day_exists("b") {
        Some(found) => assert_eq!(row(found), (String::from("b"), 5, 1, 1, 1, 1)),
        None => panic!("day b is there"),
    }
    assert!(r.get_daily_result_if_day_exists("B").is_none());
    assert!(r.get_daily_result_if_day_exists("").is_none());
    assert!(r.get_daily_result_if_day_exists("ab").is_none());
    assert!(r.get_daily_result_if_day_exists("b ").is_none());
}

#[test]
fn lookup_takes_a_timestamp_too() {
    let mut r = AnalyzerResult::new();
    r.add_daily_result(day("24/Jun/2025", 1, 1, 0, 0, 0));
    assert!(r.get_daily_result_if_day_exists("24/Jun/2025:08:14:32 +0000").is_some());
    assert!(r.get_daily_result_if_day_exists("[24/Jun/2025:08:14:32 +0000]").is_some());
    assert!(r.get_daily_result_if_day_exists("25/Jun/2025:08:14:32 +0000").is_none());
}

#[test]
fn lookup_hands_out_the_entry_itself() {
    let mut r = sample();
    if let Some(found) = r.get_daily_result_if_day_exists("a") {
        found.update_self("500");
    }
    assert_eq!(row(&r.daily_results[0]), (String::from("a"), 11, 4, 3, 2, 2));
    assert_eq!(row(&r.daily_results[1]), (String::from("b"), 5, 1, 1, 1, 1));
    assert_eq!(r.daily_results.len(), 3);
}

#[test]
fn lookup_returns_first_of_equal_days() {
    let mut r = AnalyzerResult::new();
    r.add_daily_result(day("a", 1, 0, 0, 0, 0));
    r.add_daily_result(day("a", 2, 0, 0, 0, 0));
    match r.get_daily_result_if_day_exists("a") {
        Some(found) => assert_eq!(found.daily_requests_number, 1),
        None => panic!("day a is there"),
    }
}

#[test]
fn lookup_in_empty_result_finds_nothing() {
    let mut r = AnalyzerResult::new();
    assert!(r.get_daily_result_if_day_exists("a").is_none());
    assert!(r.daily_results.is_empty());
}

#[test]
fn record_groups_by_day() {
    let mut r = AnalyzerResult::new();
    r.record("01/Jan/2025:00:00:01 +0000", "200");
    r.record("01/Jan/2025:23:59:59 +0000", "404");
    r.record("01/Jan/2025", "200");
    assert_eq!(r.daily_results.len(), 1);
    assert_eq!(row(&r.daily_results[0]), (String::from("01/Jan/2025"), 3, 2, 0, 1, 0));
    assert_eq!(r.daily_results[0].daily_error_rate, ErrorRate { numerator: 1, denominator: 3 });
}

#[test]
fn record_never_merges_distinct_days() {
    let mut r = AnalyzerResult::new();
    r.record("01/Jan/2025:00:00:01", "200");
    r.record("01/Jan/2026:00:00:01", "200");
    r.record("1/Jan/2025:00:00:01", "200");
    r.record("01/jan/2025:00:00:01", "200");
    assert_eq!(r.daily_results.len(), 4);
    for d in &r.daily_results {
        assert_eq!(d.daily_requests_number, 1);
    }
}

#[test]
fn record_keeps_first_seen_order() {
    let mut r = AnalyzerResult::new();
    for d in ["09/Mar/2025:1", "01/Jan/2025:1", "09/Mar/2025:2", "05/Feb/2025:1", "01/Jan/2025:2"] {
        r.record(d, "200");
    }
    let days: Vec<&str> = r.daily_results.iter().map(|d| d.date.as_str()).collect();
    assert_eq!(days, vec!["09/Mar/2025", "01/Jan/2025", "05/Feb/2025"]);
    let counts: Vec<u32> = r.daily_results.iter().map(|d| d.daily_requests_number).collect();
    assert_eq!(counts, vec![2, 2, 1]);
}

#[test]
fn record_leaves_totals_alone() {
    let mut r = AnalyzerResult::new();
    r.record("d:1", "500");
    assert_eq!(totals(&r), [0, 0, 0, 0, 0]);
    assert_eq!(r.total_error_rate, ErrorRate { numerator: 0, denominator: 1 });
}

#[test]
fn record_counts_unclassified_status_in_requests_only() {
    let mut r = AnalyzerResult::new();
    r.record("d:1", "100");
    r.record("d:2", "200");
    r.calculate_everything();
    assert_eq!(row(&r.daily_results[0]), (String::from("d"), 2, 1, 0, 0, 0));
    assert_eq!(totals(&r), [2, 1, 0, 0, 0]);
}
