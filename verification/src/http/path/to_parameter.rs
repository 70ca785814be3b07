//! Reading the last segment of a path as a value.
use vstd::prelude::*;
use super::super::error::Error;
use crate::text::{chars_of, integer_in, integer_of};

verus! {

/// Why text that is no integer is refused.
pub open spec fn not_an_integer() -> Seq<char> {
    "path parameter is not an integer"@
}

/// A value that the last segment of a path can be read as.
pub trait ToParameter: Sized {
    /// Whether `r` is what the segment `s` reads as. An implementation says
    /// what its readings are; where it says nothing, any result is one.
    open spec fn reads(s: Seq<char>, r: Result<Self, Error>) -> bool {
        true
    }

    /// Reads the segment `s`.
    fn to_parameter(s: &str) -> (r: Result<Self, Error>)
        ensures
            Self::reads(s@, r),
    ;
}

/// Any segment reads as itself.
impl ToParameter for String {
    open spec fn reads(s: Seq<char>, r: Result<Self, Error>) -> bool {
        r matches Ok(text) && text@ == s
    }

    fn to_parameter(s: &str) -> (r: Result<Self, Error>) {
        Ok(String::from_str(s))
    }
}

/// A segment reads as the integer that it writes, where it writes one that
/// fits.
impl ToParameter for i64 {
    open spec fn reads(s: Seq<char>, r: Result<Self, Error>) -> bool {
        match integer_of(s) {
            Some(i) if i64::MIN <= i <= i64::MAX => r == Ok::<i64, Error>(i as i64),
            _ => r matches Err(e) && e.reason() == not_an_integer(),
        }
    }

    fn to_parameter(s: &str) -> (r: Result<Self, Error>) {
        let chars = chars_of(s);
        proof {
            assert(chars@.subrange(0, chars@.len() as int) == chars@);
        }
        match integer_in(&chars, 0, chars.len()) {
            Some(i) => Ok(i),
            None => Err(Error::MalformedRequest("path parameter is not an integer")),
        }
    }
}

} // verus!
