use log_analyzer::entities::error_rate::ErrorRate;
use log_analyzer::entities::log_pattern::LogPattern;
use log_analyzer::entities::{Analyzer, AnalyzerResult, DailyAnalyzerResult};

fn pattern() -> LogPattern {
    match LogPattern::new() {
        Ok(p) => p,
        Err(e) => panic!("the log line pattern compiles: {}", e.message),
    }
}

fn lines(texts: &[&str]) -> Vec<String> {
    texts.iter().map(|t| String::from(*t)).collect()
}

fn row(d: &DailyAnalyzerResult) -> (String, u32, u32, u32, u32, u32) {
    (
        d.date.clone(),
        d.daily_requests_number,
        d.daily_2xx_requests_number,
        d.daily_3xx_requests_number,
        d.daily_4xx_requests_number,
        d.daily_5xx_requests_number,
    )
}

fn totals(r: &AnalyzerResult) -> [u32; 5] {
    [
        r.total_requests_number,
        r.total_2xx_requests_number,
        r.total_3xx_requests_number,
        r.total_4xx_requests_number,
        r.total_5xx_requests_number,
    ]
}

fn as_f64(rate: ErrorRate) -> f64 {
    rate.numerator as f64 / rate.denominator as f64
}

const L1: &str = "10.0.0.1 - - [01/Jan/2025:00:00:01 +0000] \"GET / HTTP/1.1\" 200 123 \"-\" \"UA\" 0.001";
const L2: &str = "10.0.0.1 - - [01/Jan/2025:00:00:02 +0000] \"GET / HTTP/1.1\" 404 123 \"-\" \"UA\" 0.001";
const L3: &str = "10.0.0.1 - - [02/Jan/2025:00:00:01 +0000] \"GET / HTTP/1.1\" 500 123 \"-\" \"UA\" 0.001";

#[test]
fn new_analyzer_holds_path_and_empty_result() {
    let a = Analyzer::new(String::from("/var/log/access.log"));
    assert_eq!(a.file_path, "/var/log/access.log");
    assert!(a.analyzer_result.daily_results.is_empty());
    assert_eq!(totals(&a.analyzer_result), [0, 0, 0, 0, 0]);
}

#[test]
fn end_to_end_three_lines() {
    let mut a = Analyzer::new(String::from("access.log"));
    let report = a.analyze_lines(&pattern(), &lines(&[L1, L2, L3]));
    assert_eq!(report.daily_results.len(), 2);
    assert_eq!(row(&report.daily_results[0]), (String::from("01/Jan/2025"), 2, 1, 0, 1, 0));
    assert_eq!(as_f64(report.daily_results[0].daily_error_rate), 0.5);
    assert_eq!(row(&report.daily_results[1]), (String::from("02/Jan/2025"), 1, 0, 0, 0, 1));
    assert_eq!(as_f64(report.daily_results[1].daily_error_rate), 1.0);
    assert_eq!(totals(&report), [3, 1, 0, 1, 1]);
    assert_eq!(report.total_error_rate, ErrorRate { numerator: 2, denominator: 3 });
    assert_eq!(as_f64(report.total_error_rate), 2.0 / 3.0);
}

#[test]
fn pass_leaves_the_analyzer_alone() {
    let mut a = Analyzer::new(String::from("access.log"));
    let _ = a.analyze_lines(&pattern(), &lines(&[L1, L2, L3]));
    assert_eq!(a.file_path, "access.log");
    assert!(a.analyzer_result.daily_results.is_empty());
    assert_eq!(totals(&a.analyzer_result), [0, 0, 0, 0, 0]);
}

#[test]
fn malformed_line_is_skipped() {
    let mut a = Analyzer::new(String::from("access.log"));
    let broken = "10.0.0.1 - - [03/Jan/2025:00:00:01 +0000] \"GET / HTTP/1.1\" 500";
    let report = a.analyze_lines(&pattern(), &lines(&[L1, broken]));
    assert_eq!(report.daily_results.len(), 1);
    assert_eq!(row(&report.daily_results[0]), (String::from("01/Jan/2025"), 1, 1, 0, 0, 0));
    assert_eq!(totals(&report), [1, 1, 0, 0, 0]);
    assert_eq!(as_f64(report.total_error_rate), 0.0);
}

#[test]
fn malformed_lines_between_good_ones_change_nothing() {
    let mut a = Analyzer::new(String::from("access.log"));
    let p = pattern();
    let clean = a.analyze_lines(&p, &lines(&[L1, L2, L3]));
    let noisy = a.analyze_lines(&p, &lines(&["", L1, "junk", L2, "10.0.0.1 - -", L3, "\u{fffd}"]));
    assert_eq!(clean.daily_results.len(), noisy.daily_results.len());
    for (c, n) in clean.daily_results.iter().zip(noisy.daily_results.iter()) {
        assert_eq!(row(c), row(n));
        assert_eq!(c.daily_error_rate, n.daily_error_rate);
    }
    assert_eq!(totals(&clean), totals(&noisy));
    assert_eq!(clean.total_error_rate, noisy.total_error_rate);
}

#[test]
fn empty_input_gives_empty_sealed_report() {
    let mut a = Analyzer::new(String::from("access.log"));
    let report = a.analyze_lines(&pattern(), &lines(&[]));
    assert!(report.daily_results.is_empty());
    assert_eq!(totals(&report), [0, 0, 0, 0, 0]);
    assert_eq!(report.total_error_rate, ErrorRate { numerator: 0, denominator: 1 });
}

#[test]
fn only_malformed_input_gives_empty_report() {
    let mut a = Analyzer::new(String::from("access.log"));
    let report = a.analyze_lines(&pattern(), &lines(&["a", "b c d", ""]));
    assert!(report.daily_results.is_empty());
    assert_eq!(totals(&report), [0, 0, 0, 0, 0]);
    assert_eq!(as_f64(report.total_error_rate), 0.0);
}

#[test]
fn analyze_line_reports_whether_it_counted() {
    let mut a = Analyzer::new(String::from("access.log"));
    let p = pattern();
    let mut r = AnalyzerResult::new();
    assert!(a.analyze_line(&p, L1, &mut r));
    assert!(!a.analyze_line(&p, "not a log line", &mut r));
    assert!(a.analyze_line(&p, L3, &mut r));
    assert_eq!(r.daily_results.len(), 2);
    assert_eq!(row(&r.daily_results[0]), (String::from("01/Jan/2025"), 1, 1, 0, 0, 0));
    assert_eq!(row(&r.daily_results[1]), (String::from("02/Jan/2025"), 1, 0, 0, 0, 1));
    assert_eq!(totals(&r), [0, 0, 0, 0, 0]);
}

#[test]
fn line_by_line_and_whole_pass_agree() {
    let mut a = Analyzer::new(String::from("access.log"));
    let p = pattern();
    let input = [L3, L1, "x", L2, L3];
    let mut step = AnalyzerResult::new();
    for l in input {
        a.analyze_line(&p, l, &mut step);
    }
    step.calculate_everything();
    let whole = a.analyze_lines(&p, &lines(&input));
    assert_eq!(step.daily_results.len(), whole.daily_results.len());
    for (s, w) in step.daily_results.iter().zip(whole.daily_results.iter()) {
        assert_eq!(row(s), row(w));
    }
    assert_eq!(totals(&step), totals(&whole));
    assert_eq!(row(&whole.daily_results[0]), (String::from("02/Jan/2025"), 2, 0, 0, 0, 2));
    assert_eq!(row(&whole.daily_results[1]), (String::from("01/Jan/2025"), 2, 1, 0, 1, 0));
}

#[test]
fn informational_status_counts_as_request_only() {
    let mut a = Analyzer::new(String::from("access.log"));
    let line = "10.0.0.1 - - [01/Jan/2025:00:00:01 +0000] \"GET / HTTP/1.1\" 101 0 \"-\" \"UA\" 0.001";
    let report = a.analyze_lines(&pattern(), &lines(&[line, L2]));
    assert_eq!(row(&report.daily_results[0]), (String::from("01/Jan/2025"), 2, 0, 0, 1, 0));
    assert_eq!(totals(&report), [2, 0, 0, 1, 0]);
    assert_eq!(as_f64(report.total_error_rate), 0.5);
}

#[test]
fn timestamp_without_colon_is_its_own_day() {
    let mut a = Analyzer::new(String::from("access.log"));
    let line = "h - - [today] \"r\" 200 0 \"-\" \"u\" 1";
    let report = a.analyze_lines(&pattern(), &lines(&[line]));
    assert_eq!(row(&report.daily_results[0]), (String::from("today"), 1, 1, 0, 0, 0));
}
