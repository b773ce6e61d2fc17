pub mod analyzer;
pub mod analyzer_result;
pub mod daily_analyzer_result;
pub mod error_rate;
pub mod log_pattern;
pub mod status_class;
pub mod tally;

pub use analyzer::Analyzer;
pub use analyzer_result::AnalyzerResult;
pub use daily_analyzer_result::DailyAnalyzerResult;
