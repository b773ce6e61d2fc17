use vstd::prelude::*;
use vstd::string::*;

verus! {

/// The class of an HTTP status code, by its first character.
#[derive(Clone, Copy, Debug, PartialEq, Eq, Structural)]
pub enum StatusClass {
    /// Starts with `2`.
    Success,
    /// Starts with `3`.
    Redirection,
    /// Starts with `4`.
    ClientError,
    /// Starts with `5`.
    ServerError,
    /// Empty, or starts with anything else: counted in no class.
    Unclassified,
}

/// The class that a status code text falls in.
pub open spec fn status_class(code: Seq<char>) -> StatusClass {
    if code.len() == 0 {
        StatusClass::Unclassified
    } else if code[0] == '2' {
        StatusClass::Success
    } else if code[0] == '3' {
        StatusClass::Redirection
    } else if code[0] == '4' {
        StatusClass::ClientError
    } else if code[0] == '5' {
        StatusClass::ServerError
    } else {
        StatusClass::Unclassified
    }
}

/// The class is decided by the first character alone: two codes that start
/// alike, or are both empty, fall in the same class.
pub proof fn lemma_class_by_first_char(a: Seq<char>, b: Seq<char>)
    requires
        a.len() == 0 <==> b.len() == 0,
        a.len() > 0 ==> a[0] == b[0],
    ensures
        status_class(a) == status_class(b),
{
}

/// Classifies a status code as it stands in a log line.
pub fn classify(status_code: &str) -> (class: StatusClass)
    ensures
        class == status_class(status_code@),
{
    if status_code.is_empty() {
        StatusClass::Unclassified
    } else {
        let first = status_code.get_char(0);
        if first == '2' {
            StatusClass::Success
        } else if first == '3' {
            StatusClass::Redirection
        } else if first == '4' {
            StatusClass::ClientError
        } else if first == '5' {
            StatusClass::ServerError
        } else {
            StatusClass::Unclassified
        }
    }
}

} // verus!
