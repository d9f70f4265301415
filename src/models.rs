use vstd::prelude::*;

verus! {

/// serde_json's number, carried unchanged from a document into a price.
#[verifier::external_type_specification]
#[verifier::external_body]
pub struct ExNumber(serde_json::Number);

/// Which provider operation a run uses.
#[derive(Clone, Copy, Debug, PartialEq, Eq, Structural)]
pub enum Mode {
    Last,
    Historical,
}

/// Why one symbol's fetch failed.
#[derive(Clone, Copy, Debug, PartialEq, Eq, Structural)]
pub enum FetchError {
    /// The symbol has no row in the mapping table.
    ResolutionNotFound,
    /// The request could not be made or answered.
    Transport,
    /// The body is not JSON, or lacks a field of the expected shape.
    Malformed,
    /// A timestamp could not be read or lies outside the calendar's range.
    BadTimestamp,
}

/// Why a run failed.
#[derive(Clone, Copy, Debug, PartialEq, Eq, Structural)]
pub enum IngestError {
    Fetch(FetchError),
    Store,
}

/// One price observation.
#[derive(Debug)]
pub struct Price {
    /// Seconds since the Unix epoch, UTC.
    pub dt: i64,
    /// The local ticker symbol.
    pub base: String,
    pub in_usd: serde_json::Number,
    pub in_eur: serde_json::Number,
}

impl Price {
    /// The dedup key of a record: (timestamp, symbol).
    pub open spec fn key(self) -> (int, Seq<char>) {
        (self.dt as int, self.base@)
    }

    pub fn same_key(&self, other: &Price) -> (r: bool)
        ensures
            r == (self.key() == other.key()),
    {
        self.dt == other.dt && self.base == other.base
    }
}

/// A row of the mapping table: a local symbol and the provider's name for it.
#[derive(Debug)]
pub struct Mapping {
    pub symbol: String,
    pub name: String,
}

} // verus!
