use vstd::prelude::*;
use vstd::string::StringExecFns;

verus! {

/// The kinds of failure that the workspace operations report.
#[derive(Clone, Copy, Debug, PartialEq, Eq, Structural)]
pub enum ErrorKind {
    /// An identity, user, workspace or team is absent.
    NotFound,
    /// The caller lacks platform-admin or workspace-admin standing.
    Unauthorized,
    /// The request would violate a stated invariant (such as self-demotion).
    InvalidOperation,
    /// The backing store failed.
    Infra,
}

/// A failure together with a message that describes it.
#[derive(Debug)]
pub struct ServiceError {
    pub kind: ErrorKind,
    pub message: String,
}

impl ServiceError {
    /// An error of the given kind whose message is the given text.
    pub fn new(kind: ErrorKind, message: &str) -> (r: ServiceError)
        ensures
            r.kind == kind,
            r.message@ == message@,
    {
        ServiceError { kind, message: String::from_str(message) }
    }

    /// The kind of this error.
    pub fn kind(&self) -> (r: ErrorKind)
        ensures
            r == self.kind,
    {
        self.kind
    }

    /// The message of this error.
    pub fn message(&self) -> (r: &str)
        ensures
            r@ == self.message@,
    {
        self.message.as_str()
    }
}

/// The text `prefix ++ middle ++ suffix`.
pub open spec fn framed(prefix: Seq<char>, middle: Seq<char>, suffix: Seq<char>) -> Seq<char> {
    prefix + middle + suffix
}

/// Builds `prefix ++ middle ++ suffix`.
pub fn frame(prefix: &str, middle: &str, suffix: &str) -> (r: String)
    ensures
        r@ == framed(prefix@, middle@, suffix@),
{
    let mut s = String::from_str(prefix);
    s.append(middle);
    s.append(suffix);
    s
}

} // verus!
