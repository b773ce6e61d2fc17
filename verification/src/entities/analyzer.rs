use crate::entities::analyzer_result::AnalyzerResult;
use crate::entities::log_pattern::LogPattern;
use crate::entities::status_class::{status_class, StatusClass};
use crate::entities::tally::{
    lemma_class_sum_le_requests_sum, lemma_record_requests_sum, record, requests_sum, tally,
    DayTally, Hit,
};
use crate::utils::helpers::day_part;
use vstd::prelude::*;

verus! {

/// The record that a log line stands for: the day of its timestamp and the
/// class of its status code; `None` for a line that the pattern rejects.
pub open spec fn line_hit(pattern: &LogPattern, line: Seq<char>) -> Option<Hit> {
    match pattern.fields(line) {
        Some((timestamp, status)) => Some(
            Hit { day: day_part(timestamp), class: status_class(status) },
        ),
        None => None,
    }
}

/// The records that a run of log lines stands for, in the order of the lines;
/// lines that the pattern rejects leave none.
pub open spec fn line_hits(pattern: &LogPattern, lines: Seq<Seq<char>>) -> Seq<Hit>
    decreases lines.len(),
{
    if lines.len() == 0 {
        Seq::empty()
    } else {
        let before = line_hits(pattern, lines.drop_last());
        match line_hit(pattern, lines.last()) {
            Some(hit) => before.push(hit),
            None => before,
        }
    }
}

/// The texts of a list of lines.
pub open spec fn lines_view(lines: &Vec<String>) -> Seq<Seq<char>> {
    lines@.map_values(|line: String| line@)
}

/// The analysis of one log file.
#[derive(Debug)]
pub struct Analyzer {
    pub file_path: String,
    pub analyzer_result: AnalyzerResult,
}

impl Analyzer {
    /// An analyzer for the file at `file_path`, with an empty result.
    pub fn new(file_path: String) -> (analyzer: Self)
        ensures
            analyzer.file_path == file_path,
            analyzer.analyzer_result@ == Seq::<DayTally>::empty(),
            analyzer.analyzer_result.wf(),
            analyzer.analyzer_result.sealed(),
    {
        Self { file_path, analyzer_result: AnalyzerResult::new() }
    }

    /// Takes one log line into `analyzer_result`: a line of the expected shape
    /// is counted on its day, any other line changes nothing. Returns whether
    /// the line was counted.
    pub fn analyze_line(
        &mut self,
        pattern: &LogPattern,
        line: &str,
        analyzer_result: &mut AnalyzerResult,
    ) -> (counted: bool)
        requires
            old(analyzer_result).wf(),
            requests_sum(old(analyzer_result)@) < u32::MAX,
        ensures
            *final(self) == *old(self),
            counted == line_hit(pattern, line@) is Some,
            match line_hit(pattern, line@) {
                Some(hit) => {
                    &&& final(analyzer_result)@ == record(old(analyzer_result)@, hit)
                    &&& *final(analyzer_result) == (AnalyzerResult {
                        daily_results: final(analyzer_result).daily_results,
                        ..*old(analyzer_result)
                    })
                },
                None => *final(analyzer_result) == *old(analyzer_result),
            },
            final(analyzer_result).wf(),
    {
        match pattern.parse(line) {
            Some((timestamp, status)) => {
                analyzer_result.record(timestamp.as_str(), status.as_str());
                true
            },
            None => false,
        }
    }

    /// Runs the whole pass over the lines of a log: every line of the expected
    /// shape is counted on its day, the others are passed over, and the totals
    /// are computed at the end.
    pub fn analyze_lines(&mut self, pattern: &LogPattern, lines: &Vec<String>) -> (report:
        AnalyzerResult)
        requires
            lines.len() <= u32::MAX,
        ensures
            *final(self) == *old(self),
            report@ == tally(line_hits(pattern, lines_view(lines))),
            report.wf(),
            report.sealed(),
    {
        let mut report = AnalyzerResult::new();
        let mut i: usize = 0;
        while i < lines.len()
            invariant
                0 <= i <= lines.len() <= u32::MAX,
                *self == *old(self),
                report.wf(),
                report@ == tally(line_hits(pattern, lines_view(lines).take(i as int))),
                requests_sum(report@) <= i,
            decreases lines.len() - i,
        {
            let ghost seen = lines_view(lines).take(i as int);
            let ghost next = lines_view(lines).take(i as int + 1);
            proof {
                assert(next.drop_last() =~= seen);
                assert(next.last() == lines[i as int]@);
                if let Some(hit) = line_hit(pattern, lines[i as int]@) {
                    let hits = line_hits(pattern, seen);
                    assert(hits.push(hit).drop_last() =~= hits);
                    lemma_record_requests_sum(report@, hit);
                }
            }
            self.analyze_line(pattern, lines[i].as_str(), &mut report);
            i = i + 1;
        }
        proof {
            assert(lines_view(lines).take(i as int) =~= lines_view(lines));
            lemma_class_sum_le_requests_sum(report@, StatusClass::Success);
            lemma_class_sum_le_requests_sum(report@, StatusClass::Redirection);
            lemma_class_sum_le_requests_sum(report@, StatusClass::ClientError);
            lemma_class_sum_le_requests_sum(report@, StatusClass::ServerError);
        }
        report.calculate_everything();
        report
    }
}

} // verus!
