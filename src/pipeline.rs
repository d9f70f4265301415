use vstd::prelude::*;

use crate::fetch::{lookup, CoingeckoProvider, CHART_QUERY, COINS_URL};
use crate::models::{FetchError, Mode, Price};
use crate::json::json_of;
use crate::parse::{
    historical_result, latest_result, outcome_view, parse_historical_price, parse_price,
};

verus! {

/// The outcome of a run given the fetch results so far, in symbol order:
/// the first failure, else every record in order.
pub open spec fn run_outcome(fed: Seq<Result<Seq<Price>, FetchError>>) -> Result<Seq<Price>, FetchError>
    decreases fed.len(),
{
    if fed.len() == 0 {
        Ok(Seq::empty())
    } else {
        match run_outcome(fed.drop_last()) {
            Err(e) => Err(e),
            Ok(acc) => match fed.last() {
                Ok(ps) => Ok(acc + ps),
                Err(e) => Err(e),
            },
        }
    }
}

proof fn lemma_all_ok(fed: Seq<Result<Seq<Price>, FetchError>>)
    requires
        forall|j: int| 0 <= j < fed.len() ==> (#[trigger] fed[j]) is Ok,
    ensures
        run_outcome(fed) is Ok,
    decreases fed.len(),
{
    if fed.len() > 0 {
        lemma_all_ok(fed.drop_last());
        assert(fed[fed.len() - 1] is Ok);
    }
}

/// Once the fetch of one symbol fails, after successes before it, the run
/// fails with that error whatever the later fetches give: nothing is
/// committed, the records of the earlier symbols included.
pub proof fn lemma_fail_fast(fed: Seq<Result<Seq<Price>, FetchError>>, k: int)
    requires
        0 <= k < fed.len(),
        fed[k] is Err,
        forall|j: int| 0 <= j < k ==> (#[trigger] fed[j]) is Ok,
    ensures
        run_outcome(fed) == Err::<Seq<Price>, FetchError>(fed[k]->Err_0),
    decreases fed.len(),
{
    if fed.len() == k + 1 {
        assert forall|j: int| 0 <= j < fed.drop_last().len() implies (#[trigger] fed.drop_last()[j]) is Ok by {
            assert(fed.drop_last()[j] == fed[j]);
        }
        lemma_all_ok(fed.drop_last());
    } else {
        let prefix = fed.drop_last();
        assert forall|j: int| 0 <= j < k implies (#[trigger] prefix[j]) is Ok by {
            assert(prefix[j] == fed[j]);
        }
        assert(prefix[k] == fed[k]);
        lemma_fail_fast(prefix, k);
    }
}

/// The address that `mode` fetches for `sym`.
pub fn request_url(provider: &CoingeckoProvider, sym: &str, mode: Mode) -> (r: Result<String, FetchError>)
    ensures
        match lookup(provider.resolver.rows@, sym@) {
            None => r == Err::<String, FetchError>(FetchError::ResolutionNotFound),
            Some(n) => r matches Ok(u) && u@ == match mode {
                Mode::Last => COINS_URL@ + n,
                Mode::Historical => COINS_URL@ + n + CHART_QUERY@,
            },
        },
{
    match mode {
        Mode::Last => provider.price_url(sym),
        Mode::Historical => provider.historical_url(sym),
    }
}

/// The records that the body fetched in `mode` gives for `sym`: one for the
/// latest price, one per chart entry for the history; `Malformed` where the
/// body is not JSON.
pub open spec fn response_outcome(
    sym: Seq<char>,
    mode: Mode,
    body: Seq<char>,
    o: Result<Seq<Price>, FetchError>,
) -> bool {
    match json_of(body) {
        None => o == Err::<Seq<Price>, FetchError>(FetchError::Malformed),
        Some(doc) => match mode {
            Mode::Last => match o {
                Ok(ps) => ps.len() == 1 && latest_result(doc, sym, Ok(ps[0])),
                Err(e) => latest_result(doc, sym, Err(e)),
            },
            Mode::Historical => historical_result(doc, sym, o),
        },
    }
}

/// Reads the body that `mode` fetched for `sym` into its records: one for
/// the latest price, one per chart entry for the history.
pub fn parse_response(sym: &str, mode: Mode, body: &str) -> (r: Result<Vec<Price>, FetchError>)
    ensures
        response_outcome(sym@, mode, body@, outcome_view(r)),
{
    match mode {
        Mode::Last => match parse_price(sym, body) {
            Ok(p) => {
                let ps = vec![p];
                assert(ps@[0] == p);
                Ok(ps)
            },
            Err(e) => Err(e),
        },
        Mode::Historical => parse_historical_price(sym, body),
    }
}

/// A latest-price run whose every fetch gave the body that `record` read for
/// its symbol, and which succeeded, commits one record per symbol, in symbol
/// order: a record for that symbol (never the provider's name), read from
/// that symbol's body.
pub proof fn lemma_latest_run(
    symbols: Seq<String>,
    bodies: Seq<Seq<char>>,
    fed: Seq<Result<Seq<Price>, FetchError>>,
)
    requires
        fed.len() <= symbols.len(),
        fed.len() <= bodies.len(),
        forall|k: int|
            0 <= k < fed.len() ==> response_outcome(symbols[k]@, Mode::Last, bodies[k], #[trigger] fed[k]),
        run_outcome(fed) is Ok,
    ensures
        run_outcome(fed)->Ok_0.len() == fed.len(),
        forall|k: int|
            0 <= k < fed.len() ==> {
                &&& (#[trigger] run_outcome(fed)->Ok_0[k]).base@ == symbols[k]@
                &&& json_of(bodies[k]) matches Some(doc) && latest_result(
                    doc,
                    symbols[k]@,
                    Ok(run_outcome(fed)->Ok_0[k]),
                )
            },
    decreases fed.len(),
{
    if fed.len() > 0 {
        let prev = fed.drop_last();
        let n = prev.len() as int;
        assert forall|k: int| 0 <= k < prev.len() implies response_outcome(
            symbols[k]@,
            Mode::Last,
            bodies[k],
            #[trigger] prev[k],
        ) by {
            assert(prev[k] == fed[k]);
        }
        lemma_latest_run(symbols, bodies, prev);
        assert(response_outcome(symbols[n]@, Mode::Last, bodies[n], fed[n]));
        let acc = run_outcome(prev)->Ok_0;
        let ps = fed[n]->Ok_0;
        let batch = run_outcome(fed)->Ok_0;
        assert(batch == acc + ps);
        assert forall|k: int| 0 <= k < fed.len() implies {
            &&& (#[trigger] batch[k]).base@ == symbols[k]@
            &&& json_of(bodies[k]) matches Some(doc) && latest_result(doc, symbols[k]@, Ok(batch[k]))
        } by {
            if k < n {
                assert(batch[k] == acc[k]);
            } else {
                assert(batch[k] == ps[0]);
            }
        }
    }
}

/// What the driver of a run does next.
#[derive(Debug)]
pub enum Step {
    /// Fetch this symbol in the run's mode and hand the result to `record`.
    Fetch(String),
    /// Upsert the batch that `finish` gives.
    Commit,
    /// Stop: this fetch error ends the run with nothing written.
    Abort(FetchError),
}

/// One run of the pipeline over the mapped symbols: fetches one symbol at a
/// time and stops at the first failure.
pub struct Ingest {
    mode: Mode,
    symbols: Vec<String>,
    collected: Vec<Price>,
    failure: Option<FetchError>,
    done: usize,
    fed: Ghost<Seq<Result<Seq<Price>, FetchError>>>,
}

impl Ingest {
    /// The symbols of the run, in order.
    pub closed spec fn symbols(&self) -> Seq<String> {
        self.symbols@
    }

    /// The mode of every fetch of the run.
    pub closed spec fn run_mode(&self) -> Mode {
        self.mode
    }

    pub fn mode(&self) -> (r: Mode)
        ensures
            r == self.run_mode(),
    {
        self.mode
    }

    /// The fetch results recorded so far.
    pub closed spec fn fed(&self) -> Seq<Result<Seq<Price>, FetchError>> {
        self.fed@
    }

    pub closed spec fn wf(&self) -> bool {
        &&& self.fed@.len() <= self.symbols@.len()
        &&& self.done == self.fed@.len()
        &&& run_outcome(self.fed@) == match self.failure {
            Some(e) => Err(e),
            None => Ok(self.collected@),
        }
    }

    pub fn new(mode: Mode, symbols: Vec<String>) -> (r: Self)
        ensures
            r.wf(),
            r.run_mode() == mode,
            r.symbols() == symbols@,
            r.fed() == Seq::<Result<Seq<Price>, FetchError>>::empty(),
    {
        Ingest { mode, symbols, collected: Vec::new(), failure: None, done: 0, fed: Ghost(Seq::empty()) }
    }

    /// The first failure ends the run; else the next symbol is fetched; after
    /// the last one the batch is committed.
    pub fn next_step(&self) -> (r: Step)
        requires
            self.wf(),
        ensures
            match run_outcome(self.fed()) {
                Err(e) => r == Step::Abort(e),
                Ok(_) => if self.fed().len() < self.symbols().len() {
                    r matches Step::Fetch(s) && s@ == self.symbols()[self.fed().len() as int]@
                } else {
                    r is Commit
                },
            },
    {
        match self.failure {
            Some(e) => Step::Abort(e),
            None => {
                if self.done < self.symbols.len() {
                    Step::Fetch(self.symbols[self.done].clone())
                } else {
                    Step::Commit
                }
            },
        }
    }

    /// Records the fetch of the next symbol: the body that came back, read
    /// for that symbol in the run's mode, or the error that ended the fetch.
    pub fn record(&mut self, fetched: Result<String, FetchError>)
        requires
            old(self).wf(),
            run_outcome(old(self).fed()) is Ok,
            old(self).fed().len() < old(self).symbols().len(),
        ensures
            final(self).wf(),
            final(self).run_mode() == old(self).run_mode(),
            final(self).symbols() == old(self).symbols(),
            final(self).fed().len() == old(self).fed().len() + 1,
            final(self).fed() == old(self).fed().push(final(self).fed().last()),
            match fetched {
                Ok(body) => response_outcome(
                    old(self).symbols()[old(self).fed().len() as int]@,
                    old(self).run_mode(),
                    body@,
                    final(self).fed().last(),
                ),
                Err(e) => final(self).fed().last() == Err::<Seq<Price>, FetchError>(e),
            },
            run_outcome(final(self).fed()) == match final(self).fed().last() {
                Ok(ps) => Ok(run_outcome(old(self).fed())->Ok_0 + ps),
                Err(e) => Err::<Seq<Price>, FetchError>(e),
            },
    {
        let result = match fetched {
            Ok(body) => parse_response(self.symbols[self.done].as_str(), self.mode, body.as_str()),
            Err(e) => Err(e),
        };
        let ghost prev = self.fed@;
        self.fed = Ghost(prev.push(outcome_view(result)));
        assert(self.fed@.drop_last() =~= prev);
        let total = self.symbols.len();
        assert(self.done < total);
        self.done = self.done + 1;
        match result {
            Ok(ps) => {
                let mut ps = ps;
                self.collected.append(&mut ps);
            },
            Err(e) => {
                self.failure = Some(e);
            },
        }
    }

    /// The batch of a run whose every symbol was fetched: all records, in
    /// symbol order.
    pub fn finish(self) -> (r: Vec<Price>)
        requires
            self.wf(),
            run_outcome(self.fed()) is Ok,
            self.fed().len() == self.symbols().len(),
        ensures
            r@ == run_outcome(self.fed())->Ok_0,
    {
        self.collected
    }
}

} // verus!
