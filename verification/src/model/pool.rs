//! The place of the connection pool that queries use by default.
use vstd::prelude::*;
use super::error::{Error, ErrorView};

verus! {

/// Why a second pool is refused.
pub open spec fn already_configured() -> Seq<char> {
    "pool already configured"@
}

/// The place of the pool that queries use where none is handed to them. It
/// is empty until a pool is configured, and holds that pool from then on.
#[derive(Debug)]
pub struct PoolSlot<P> {
    pool: Option<P>,
}

impl<P> View for PoolSlot<P> {
    type V = Option<P>;

    closed spec fn view(&self) -> Option<P> {
        self.pool
    }
}

impl<P> PoolSlot<P> {
    /// An empty place.
    pub fn new() -> (r: Self)
        ensures
            r@ is None,
    {
        PoolSlot { pool: None }
    }

    /// Whether a pool is configured.
    pub fn is_configured(&self) -> (r: bool)
        ensures
            r == (self@ is Some),
    {
        self.pool.is_some()
    }

    /// Configures the pool. This succeeds once: a second pool is refused and
    /// the first one stays.
    pub fn configure(&mut self, pool: P) -> (r: Result<(), Error>)
        ensures
            match old(self)@ {
                None => r is Ok && final(self)@ == Some(pool),
                Some(_) => final(self)@ == old(self)@ && (r matches Err(e) && e@
                    == ErrorView::Unknown(already_configured())),
            },
    {
        if self.pool.is_some() {
            Err(Error::Unknown(String::from_str("pool already configured")))
        } else {
            self.pool = Some(pool);
            Ok(())
        }
    }

    /// The configured pool. That none is configured is an error.
    pub fn get(&self) -> (r: Result<&P, Error>)
        ensures
            match self@ {
                Some(pool) => r matches Ok(p) && *p == pool,
                None => r matches Err(e) && e@ == ErrorView::PoolNotConfigured,
            },
    {
        match &self.pool {
            Some(pool) => Ok(pool),
            None => Err(Error::PoolNotConfigured),
        }
    }
}

} // verus!
