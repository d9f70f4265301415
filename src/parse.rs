use vstd::prelude::*;
use vstd::string::StringExecFns;

use crate::fetch::{
    in_utc_range, naive_utc_seconds, parse_naive_seconds, utc_second_in_range, LAST_UPDATED_FORMAT,
};
use crate::json::{json_of, member, parse_json, Json, JsonV};
use crate::models::{FetchError, Price};

verus! {

/// What a coin detail document gives: (usd, eur, `last_updated` text).
pub open spec fn latest_fields(doc: JsonV) -> Option<(serde_json::Number, serde_json::Number, Seq<char>)> {
    match member(doc, "market_data"@) {
        Some(md) => match member(md, "current_price"@) {
            Some(cp) => match (member(cp, "eur"@), member(cp, "usd"@), member(doc, "last_updated"@)) {
                (Some(JsonV::Number(e)), Some(JsonV::Number(u)), Some(JsonV::Str(t))) => Some(
                    (u.value, e.value, t),
                ),
                _ => None,
            },
            None => None,
        },
        None => None,
    }
}

/// The record of a latest price at the parsed second `secs`, if any: a
/// second outside chrono's calendar is no timestamp either.
pub open spec fn latest_record_result(
    sym: Seq<char>,
    usd: serde_json::Number,
    eur: serde_json::Number,
    secs: Option<int>,
    r: Result<Price, FetchError>,
) -> bool {
    match secs {
        Some(s) if utc_second_in_range(s) => r matches Ok(p) && p.dt == s && p.base@ == sym
            && p.in_usd == usd && p.in_eur == eur,
        _ => r == Err::<Price, FetchError>(FetchError::BadTimestamp),
    }
}

/// The record that a coin detail document gives for `sym`.
pub open spec fn latest_result(doc: JsonV, sym: Seq<char>, r: Result<Price, FetchError>) -> bool {
    match latest_fields(doc) {
        None => r == Err::<Price, FetchError>(FetchError::Malformed),
        Some((usd, eur, text)) => latest_record_result(
            sym,
            usd,
            eur,
            naive_utc_seconds(text, LAST_UPDATED_FORMAT@),
            r,
        ),
    }
}

/// The record of a latest price for `sym`, given the seconds that the
/// `last_updated` text was read as (`None` where it could not be read).
pub fn latest_record(
    sym: &str,
    in_usd: serde_json::Number,
    in_eur: serde_json::Number,
    secs: Option<i64>,
) -> (r: Result<Price, FetchError>)
    ensures
        latest_record_result(
            sym@,
            in_usd,
            in_eur,
            match secs {
                Some(s) => Some(s as int),
                None => None,
            },
            r,
        ),
{
    match secs {
        Some(dt) => if in_utc_range(dt) {
            Ok(Price { dt, base: String::from_str(sym), in_usd, in_eur })
        } else {
            Err(FetchError::BadTimestamp)
        },
        None => Err(FetchError::BadTimestamp),
    }
}

fn number_of(j: Option<&Json>) -> (r: Option<serde_json::Number>)
    ensures
        match j {
            Some(x) => match x@ {
                JsonV::Number(n) => r == Some(n.value),
                _ => r is None,
            },
            None => r is None,
        },
{
    match j {
        Some(Json::Number(n)) => Some(n.value.clone()),
        _ => None,
    }
}

/// Reads the current prices and update time of a coin detail document into
/// one record for the local symbol `sym`.
pub fn price_from_doc(doc: &Json, sym: &str) -> (r: Result<Price, FetchError>)
    ensures
        latest_result(doc@, sym@, r),
{
    let cp = match doc.get("market_data") {
        Some(md) => match md.get("current_price") {
            Some(cp) => cp,
            None => return Err(FetchError::Malformed),
        },
        None => return Err(FetchError::Malformed),
    };
    let in_eur = match number_of(cp.get("eur")) {
        Some(n) => n,
        None => return Err(FetchError::Malformed),
    };
    let in_usd = match number_of(cp.get("usd")) {
        Some(n) => n,
        None => return Err(FetchError::Malformed),
    };
    let text = match doc.get("last_updated") {
        Some(Json::Str(t)) => t,
        _ => return Err(FetchError::Malformed),
    };
    let secs = match parse_naive_seconds(text.as_str(), LAST_UPDATED_FORMAT) {
        Ok(s) => Some(s),
        Err(_) => None,
    };
    latest_record(sym, in_usd, in_eur, secs)
}

/// Reads a coin detail body into one record for `sym`; `Malformed` where the
/// body is not a JSON document.
pub fn parse_price(sym: &str, body: &str) -> (r: Result<Price, FetchError>)
    ensures
        match json_of(body@) {
            Some(doc) => latest_result(doc, sym@, r),
            None => r == Err::<Price, FetchError>(FetchError::Malformed),
        },
{
    match parse_json(body) {
        Some(doc) => price_from_doc(&doc, sym),
        None => Err(FetchError::Malformed),
    }
}

/// The `prices` array of a chart document.
pub open spec fn chart_items(doc: JsonV) -> Option<Seq<JsonV>> {
    match member(doc, "prices"@) {
        Some(JsonV::Array(items)) => Some(items),
        _ => None,
    }
}

/// A chart entry: an array of exactly an integer timestamp in milliseconds
/// that fits in `i64`, and a price.
pub open spec fn chart_pair(j: JsonV) -> Option<(i64, serde_json::Number)> {
    match j {
        JsonV::Array(items) => if items.len() == 2 {
            match (items[0], items[1]) {
                (JsonV::Number(t), JsonV::Number(p)) => match t.integer {
                    Some(ms) => Some((ms, p.value)),
                    None => None,
                },
                _ => None,
            }
        } else {
            None
        },
        _ => None,
    }
}

/// Milliseconds to whole seconds, truncating toward zero.
pub open spec fn secs_of_millis(ms: int) -> int {
    if ms >= 0 {
        ms / 1000
    } else {
        -((-ms) / 1000)
    }
}

pub open spec fn all_pairs(items: Seq<JsonV>) -> bool {
    forall|i: int| 0 <= i < items.len() ==> (#[trigger] chart_pair(items[i])) is Some
}

pub open spec fn pair_in_range(j: JsonV) -> bool {
    utc_second_in_range(secs_of_millis(chart_pair(j)->Some_0.0 as int))
}

/// The record of one chart entry: the price stands for both currencies.
pub open spec fn chart_record(p: Price, sym: Seq<char>, pair: (i64, serde_json::Number)) -> bool {
    &&& p.dt == secs_of_millis(pair.0 as int)
    &&& p.base@ == sym
    &&& p.in_usd == pair.1
    &&& p.in_eur == pair.1
}

/// The records that a chart document gives for `sym`.
pub open spec fn historical_result(doc: JsonV, sym: Seq<char>, r: Result<Seq<Price>, FetchError>) -> bool {
    match chart_items(doc) {
        None => r == Err::<Seq<Price>, FetchError>(FetchError::Malformed),
        Some(items) => if !all_pairs(items) {
            r == Err::<Seq<Price>, FetchError>(FetchError::Malformed)
        } else if exists|i: int| 0 <= i < items.len() && !#[trigger] pair_in_range(items[i]) {
            r == Err::<Seq<Price>, FetchError>(FetchError::BadTimestamp)
        } else {
            r matches Ok(ps) && ps.len() == items.len() && forall|i: int|
                0 <= i < items.len() ==> chart_record(#[trigger] ps[i], sym, chart_pair(items[i])->Some_0)
        },
    }
}

/// A list of records, or an error, as a run sees it.
pub open spec fn outcome_view(r: Result<Vec<Price>, FetchError>) -> Result<Seq<Price>, FetchError> {
    match r {
        Ok(v) => Ok(v@),
        Err(e) => Err(e),
    }
}

/// Whole seconds of a millisecond timestamp, truncating toward zero.
pub fn seconds_of_millis(ms: i64) -> (r: i64)
    ensures
        r == secs_of_millis(ms as int),
{
    if ms >= 0 {
        (ms as u64 / 1000) as i64
    } else {
        let below: i64 = -(ms + 1);
        let magnitude: u64 = below as u64 + 1;
        -((magnitude / 1000) as i64)
    }
}

fn read_pair(j: &Json) -> (r: Option<(i64, serde_json::Number)>)
    ensures
        r == chart_pair(j@),
{
    match j {
        Json::Array(items) => {
            let ghost vs = j@->Array_0;
            assert(vs.len() == items@.len());
            if items.len() != 2 {
                return None;
            }
            assert(vs[0] == items@[0]@);
            assert(vs[1] == items@[1]@);
            match (&items[0], &items[1]) {
                (Json::Number(t), Json::Number(p)) => match t.integer {
                    Some(ms) => Some((ms, p.value.clone())),
                    None => None,
                },
                _ => None,
            }
        },
        _ => None,
    }
}

/// Reads the `prices` chart of a document into one record per entry for the
/// local symbol `sym`, in the chart's order.
pub fn prices_from_doc(doc: &Json, sym: &str) -> (r: Result<Vec<Price>, FetchError>)
    ensures
        historical_result(doc@, sym@, outcome_view(r)),
{
    let items = match doc.get("prices") {
        Some(Json::Array(items)) => items,
        _ => return Err(FetchError::Malformed),
    };
    let ghost vs = chart_items(doc@)->Some_0;
    assert(vs.len() == items@.len());
    assert(forall|k: int| 0 <= k < vs.len() ==> #[trigger] vs[k] == items@[k]@);
    let mut pairs: Vec<(i64, serde_json::Number)> = Vec::new();
    let mut i: usize = 0;
    while i < items.len()
        invariant
            0 <= i <= items@.len(),
            chart_items(doc@) == Some(vs),
            vs.len() == items@.len(),
            forall|k: int| 0 <= k < vs.len() ==> #[trigger] vs[k] == items@[k]@,
            pairs@.len() == i,
            forall|k: int| 0 <= k < i ==> chart_pair(#[trigger] vs[k]) == Some(pairs@[k]),
        decreases items@.len() - i,
    {
        match read_pair(&items[i]) {
            Some(pair) => pairs.push(pair),
            None => {
                assert(chart_pair(vs[i as int]) is None);
                return Err(FetchError::Malformed);
            },
        }
        i = i + 1;
    }
    assert(all_pairs(vs));
    let mut out: Vec<Price> = Vec::new();
    let mut j: usize = 0;
    while j < pairs.len()
        invariant
            0 <= j <= pairs@.len(),
            chart_items(doc@) == Some(vs),
            vs.len() == items@.len(),
            forall|k: int| 0 <= k < vs.len() ==> #[trigger] vs[k] == items@[k]@,
            all_pairs(vs),
            pairs@.len() == items@.len(),
            forall|k: int| 0 <= k < pairs@.len() ==> chart_pair(#[trigger] vs[k]) == Some(pairs@[k]),
            out@.len() == j,
            forall|k: int| 0 <= k < j ==> #[trigger] pair_in_range(vs[k]),
            forall|k: int| 0 <= k < j ==> chart_record(#[trigger] out@[k], sym@, pairs@[k]),
        decreases pairs@.len() - j,
    {
        let secs = seconds_of_millis(pairs[j].0);
        if in_utc_range(secs) {
                let price = pairs[j].1.clone();
                out.push(Price { dt: secs, base: String::from_str(sym), in_usd: price.clone(), in_eur: price });
        } else {
            assert(!pair_in_range(vs[j as int]));
            return Err(FetchError::BadTimestamp);
        }
        j = j + 1;
    }
    Ok(out)
}

/// Reads a chart body into records for `sym`; `Malformed` where the body is
/// not a JSON document.
pub fn parse_historical_price(sym: &str, body: &str) -> (r: Result<Vec<Price>, FetchError>)
    ensures
        match json_of(body@) {
            Some(doc) => historical_result(doc, sym@, outcome_view(r)),
            None => r == Err::<Vec<Price>, FetchError>(FetchError::Malformed),
        },
{
    match parse_json(body) {
        Some(doc) => prices_from_doc(&doc, sym),
        None => Err(FetchError::Malformed),
    }
}

} // verus!
