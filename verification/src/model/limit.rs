//! Row limits and offsets.
use vstd::prelude::*;
use super::ToSql;
use crate::text::{decimal, push_decimal};

verus! {

/// How many rows a query returns at most, and how many it skips first.
#[derive(Debug, Clone, Copy, PartialEq, Eq)]
pub struct Limit {
    pub limit: Option<usize>,
    pub offset: Option<usize>,
}

/// The keyword that starts a row limit.
pub open spec fn limit_keyword() -> Seq<char> {
    " LIMIT "@
}

/// The keyword that starts a row offset.
pub open spec fn offset_keyword() -> Seq<char> {
    " OFFSET "@
}

impl Limit {
    /// The limit as SQL: ` LIMIT n` where a limit is set, then ` OFFSET m`
    /// where an offset is set.
    pub open spec fn clause(self) -> Seq<char> {
        (match self.limit {
            Some(n) => limit_keyword() + decimal(n as nat),
            None => Seq::empty(),
        }) + (match self.offset {
            Some(m) => offset_keyword() + decimal(m as nat),
            None => Seq::empty(),
        })
    }

    /// No limit and no offset.
    pub fn none() -> (r: Self)
        ensures
            r == (Limit { limit: None, offset: None }),
    {
        Limit { limit: None, offset: None }
    }

    /// At most `limit` rows.
    pub fn new(limit: usize) -> (r: Self)
        ensures
            r == (Limit { limit: Some(limit), offset: None }),
    {
        Limit { limit: Some(limit), offset: None }
    }

    /// The same limit, after skipping `offset` rows.
    pub fn offset(self, offset: usize) -> (r: Self)
        ensures
            r == (Limit { limit: self.limit, offset: Some(offset) }),
    {
        Limit { limit: self.limit, offset: Some(offset) }
    }

    /// The same offset, with at most `limit` rows.
    pub fn limit(self, limit: usize) -> (r: Self)
        ensures
            r == (Limit { limit: Some(limit), offset: self.offset }),
    {
        Limit { limit: Some(limit), offset: self.offset }
    }
}

impl ToSql for Limit {
    open spec fn sql(&self) -> Seq<char> {
        self.clause()
    }

    fn to_sql(&self) -> (s: String) {
        let mut out = String::new();
        if let Some(n) = self.limit {
            out.append(" LIMIT ");
            push_decimal(&mut out, n as u64);
        }
        if let Some(m) = self.offset {
            out.append(" OFFSET ");
            push_decimal(&mut out, m as u64);
        }
        proof {
            assert(out@ == self.clause());
        }
        out
    }
}

} // verus!
