use regex::Regex;
use vstd::prelude::*;
use vstd::string::*;

verus! {

/// `regex::Regex`, a compiled regular expression; nothing inside it is seen.
#[verifier::external_type_specification]
#[verifier::external_body]
pub struct ExRegex(regex::Regex);

/// `regex::Error`, the reason why a pattern was refused; nothing inside it is seen.
#[verifier::external_type_specification]
#[verifier::external_body]
pub struct ExRegexError(regex::Error);

/// The shape of an access-log line:
/// `<client> - - [<timestamp>] "<request>" <status> <bytes> "-" "<user agent>" <response time>`.
pub const LOG_LINE_PATTERN: &'static str =
    r#"^(\S+) - - \[([^\]]+)\] "([^"]+)" (\d+) (\d+) "-" "([^"]+)" ([\d.]+)$"#;

/// The capture group of `LOG_LINE_PATTERN` that holds the timestamp.
pub const TIMESTAMP_GROUP: usize = 2;

/// The capture group of `LOG_LINE_PATTERN` that holds the status code.
pub const STATUS_GROUP: usize = 4;

/// What `regex::Regex::new` returns for a pattern: the compiled regex, or the
/// error that says why the pattern was refused.
pub uninterp spec fn regex_compiled(pattern: Seq<char>) -> Result<Regex, regex::Error>;

/// What `regex::Regex::captures` reports for a haystack: `None` where the
/// regex does not match; else the whole match and then each capture group in
/// the order of their opening parentheses, each with the text it matched, or
/// `None` for a group that took no part in the match.
pub uninterp spec fn regex_captures(re: Regex, haystack: Seq<char>) -> Option<
    Seq<Option<Seq<char>>>,
>;

/// The texts of a list of capture groups.
pub open spec fn groups_view(groups: Option<Vec<Option<String>>>) -> Option<
    Seq<Option<Seq<char>>>,
> {
    match groups {
        Some(list) => Some(
            list@.map_values(
                |group: Option<String>|
                    match group {
                        Some(text) => Some(text@),
                        None => None,
                    },
            ),
        ),
        None => None,
    }
}

/// Calls `regex::Regex::new`: the result is what the crate gives for this
/// pattern, a compiled regex or its error.
#[verifier::external_body]
fn compile(pattern: &str) -> (compiled: Result<Regex, regex::Error>)
    ensures
        compiled == regex_compiled(pattern@),
{
    Regex::new(pattern)
}

/// Calls `regex::Regex::captures` and copies out the text of every group.
#[verifier::external_body]
fn captures(re: &Regex, haystack: &str) -> (groups: Option<Vec<Option<String>>>)
    ensures
        groups_view(groups) == regex_captures(*re, haystack@),
{
    match re.captures(haystack) {
        Some(found) => Some(found.iter().map(|g| g.map(|m| m.as_str().to_string())).collect()),
        None => None,
    }
}

/// Why the log line pattern could not be compiled.
#[derive(Debug)]
pub struct PatternError {
    pub message: String,
}

/// The timestamp and the status code among the capture groups of a line, if
/// the line matched and both groups are there.
pub open spec fn fields_of(groups: Option<Seq<Option<Seq<char>>>>) -> Option<
    (Seq<char>, Seq<char>),
> {
    match groups {
        Some(list) => if list.len() > STATUS_GROUP && list[TIMESTAMP_GROUP as int] is Some
            && list[STATUS_GROUP as int] is Some {
            Some((list[TIMESTAMP_GROUP as int]->0, list[STATUS_GROUP as int]->0))
        } else {
            None
        },
        None => None,
    }
}

/// The texts of a timestamp and a status code.
pub open spec fn fields_view(fields: Option<(String, String)>) -> Option<(Seq<char>, Seq<char>)> {
    match fields {
        Some((timestamp, status)) => Some((timestamp@, status@)),
        None => None,
    }
}

/// Picks the timestamp and the status code out of the capture groups of a line.
pub fn fields_from_groups(groups: Option<Vec<Option<String>>>) -> (fields: Option<
    (String, String),
>)
    ensures
        fields_view(fields) == fields_of(groups_view(groups)),
{
    match groups {
        Some(list) => {
            if list.len() > STATUS_GROUP {
                match (&list[TIMESTAMP_GROUP], &list[STATUS_GROUP]) {
                    (Some(timestamp), Some(status)) => Some((timestamp.clone(), status.clone())),
                    _ => None,
                }
            } else {
                None
            }
        },
        None => None,
    }
}

/// The compiled log line pattern.
pub struct LogPattern {
    regex: Regex,
}

impl LogPattern {
    /// The compiled regex.
    pub closed spec fn regex(&self) -> Regex {
        self.regex
    }

    /// The timestamp and the status code that the pattern finds in a line, or
    /// `None` for a line of another shape.
    pub open spec fn fields(&self, line: Seq<char>) -> Option<(Seq<char>, Seq<char>)> {
        fields_of(regex_captures(self.regex(), line))
    }

    /// Compiles `LOG_LINE_PATTERN`.
    pub fn new() -> (compiled: Result<LogPattern, PatternError>)
        ensures
            match compiled {
                Ok(pattern) => regex_compiled(LOG_LINE_PATTERN@) == Ok::<Regex, regex::Error>(
                    pattern.regex(),
                ),
                Err(_) => regex_compiled(LOG_LINE_PATTERN@) is Err,
            },
    {
        match compile(LOG_LINE_PATTERN) {
            Ok(regex) => Ok(LogPattern { regex }),
            Err(error) => Err(PatternError { message: error.to_string() }),
        }
    }

    /// Parses one log line into its timestamp and status code.
    pub fn parse(&self, line: &str) -> (fields: Option<(String, String)>)
        ensures
            fields_view(fields) == self.fields(line@),
    {
        fields_from_groups(captures(&self.regex, line))
    }
}

} // verus!
