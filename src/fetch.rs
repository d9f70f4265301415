use vstd::prelude::*;
use vstd::string::StringExecFns;

use crate::json::{member, parse_json, Json};
use crate::models::{FetchError, Mapping, Price};

verus! {

/// chrono's parse error.
#[verifier::external_type_specification]
#[verifier::external_body]
pub struct ExParseError(chrono::format::ParseError);

/// The whole seconds since the epoch of the wall-clock time that chrono reads
/// from `text` by `format`, taken as UTC; `None` where it reads none.
pub uninterp spec fn naive_utc_seconds(text: Seq<char>, format: Seq<char>) -> Option<int>;

/// The first second of chrono's calendar: year -262143, January 1, 00:00:00 UTC.
pub const MIN_UTC_SECOND: i64 = -8334601228800;

/// The last second of chrono's calendar: year 262142, December 31, 23:59:59 UTC.
pub const MAX_UTC_SECOND: i64 = 8210266876799;

/// Whether chrono's calendar holds the UTC second `secs` after the epoch.
pub open spec fn utc_second_in_range(secs: int) -> bool {
    MIN_UTC_SECOND <= secs <= MAX_UTC_SECOND
}

/// Relies on chrono::NaiveDateTime::parse_from_str: reads `text` by `format`
/// as a wall-clock time; the seconds are those of that time taken as UTC.
#[verifier::external_body]
pub(crate) fn parse_naive_seconds(text: &str, format: &str) -> (r: Result<i64, chrono::format::ParseError>)
    ensures
        match r {
            Ok(s) => naive_utc_seconds(text@, format@) == Some(s as int),
            Err(_) => naive_utc_seconds(text@, format@) is None,
        },
{
    chrono::NaiveDateTime::parse_from_str(text, format).map(|d| d.and_utc().timestamp())
}

/// Whether chrono's calendar holds `secs`, as chrono's
/// `DateTime::from_timestamp` decides it for whole seconds.
pub fn in_utc_range(secs: i64) -> (r: bool)
    ensures
        r == utc_second_in_range(secs as int),
{
    MIN_UTC_SECOND <= secs && secs <= MAX_UTC_SECOND
}

/// Relies on serde_json::Number's derived `Clone`: a copy equal to the original.
pub assume_specification[ <serde_json::Number as Clone>::clone ](n: &serde_json::Number) -> (r: serde_json::Number)
    ensures
        r == *n,
;

/// Where the provider's coin endpoints live.
pub const COINS_URL: &'static str = "https://api.coingecko.com/api/v3/coins/";

/// The path and query of the 30-day hourly chart, in EUR.
pub const CHART_QUERY: &'static str = "/market_chart?vs_currency=eur&days=30&interval=hourly";

/// How the provider writes `last_updated`.
pub const LAST_UPDATED_FORMAT: &'static str = "%Y-%m-%dT%H:%M:%S%.fZ";

/// The provider name of `sym`: that of the first mapping row for it.
pub open spec fn lookup(rows: Seq<Mapping>, sym: Seq<char>) -> Option<Seq<char>>
    decreases rows.len(),
{
    if rows.len() == 0 {
        None
    } else if rows[0].symbol@ == sym {
        Some(rows[0].name@)
    } else {
        lookup(rows.drop_first(), sym)
    }
}

/// Resolves local symbols through the rows of the mapping table.
pub struct DatabaseSymbolToName {
    pub rows: Vec<Mapping>,
}

impl DatabaseSymbolToName {
    pub fn new(rows: Vec<Mapping>) -> (r: Self)
        ensures
            r.rows@ == rows@,
    {
        DatabaseSymbolToName { rows }
    }

    /// The provider name of `sym`, or `ResolutionNotFound`.
    pub fn resolve(&self, sym: &str) -> (r: Result<String, FetchError>)
        ensures
            match lookup(self.rows@, sym@) {
                Some(n) => r matches Ok(s) && s@ == n,
                None => r == Err::<String, FetchError>(FetchError::ResolutionNotFound),
            },
    {
        let wanted = String::from_str(sym);
        let mut i: usize = 0;
        assert(self.rows@.skip(0) =~= self.rows@);
        while i < self.rows.len()
            invariant
                0 <= i <= self.rows@.len(),
                wanted@ == sym@,
                lookup(self.rows@, sym@) == lookup(self.rows@.skip(i as int), sym@),
            decreases self.rows@.len() - i,
        {
            let ghost rest = self.rows@.skip(i as int);
            assert(rest[0] == self.rows@[i as int]);
            assert(rest.drop_first() =~= self.rows@.skip(i + 1));
            if self.rows[i].symbol.eq(&wanted) {
                return Ok(self.rows[i].name.clone());
            }
            i = i + 1;
        }
        Err(FetchError::ResolutionNotFound)
    }
}

/// Builds the provider's request addresses for local symbols.
pub struct CoingeckoProvider {
    pub resolver: DatabaseSymbolToName,
}

impl CoingeckoProvider {
    pub fn new(resolver: DatabaseSymbolToName) -> (r: Self)
        ensures
            r.resolver.rows@ == resolver.rows@,
    {
        CoingeckoProvider { resolver }
    }

    /// The address of the coin detail of `sym`'s provider name.
    pub fn price_url(&self, sym: &str) -> (r: Result<String, FetchError>)
        ensures
            match lookup(self.resolver.rows@, sym@) {
                Some(n) => r matches Ok(u) && u@ == COINS_URL@ + n,
                None => r == Err::<String, FetchError>(FetchError::ResolutionNotFound),
            },
    {
        let name = self.resolver.resolve(sym)?;
        Ok(String::from_str(COINS_URL).concat(name.as_str()))
    }

    /// The address of the 30-day hourly chart of `sym`'s provider name.
    pub fn historical_url(&self, sym: &str) -> (r: Result<String, FetchError>)
        ensures
            match lookup(self.resolver.rows@, sym@) {
                Some(n) => r matches Ok(u) && u@ == COINS_URL@ + n + CHART_QUERY@,
                None => r == Err::<String, FetchError>(FetchError::ResolutionNotFound),
            },
    {
        let name = self.resolver.resolve(sym)?;
        Ok(String::from_str(COINS_URL).concat(name.as_str()).concat(CHART_QUERY))
    }
}

} // verus!
