//! Access-log analysis: a line parser and an aggregator that groups requests by
//! calendar day and counts them by HTTP status class.

pub mod entities;
pub mod utils;
