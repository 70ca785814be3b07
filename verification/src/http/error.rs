//! What can be wrong with a request.
use vstd::prelude::*;

verus! {

/// What can be wrong with a request.
#[derive(Debug, Clone, PartialEq, Eq)]
pub enum Error {
    /// The request does not read as HTTP: why.
    MalformedRequest(&'static str),
}

impl Error {
    /// Why the request was refused.
    pub open spec fn reason(self) -> Seq<char> {
        match self {
            Error::MalformedRequest(why) => why@,
        }
    }
}

} // verus!
