use vstd::prelude::*;
use vstd::string::StringExecFns;

use crate::fetch::MAX_UTC_SECOND;
use crate::models::Mode;

verus! {

/// The first event, in UTC seconds, that the cron expression `expr` lists
/// after the UTC second `secs`; `None` where the expression does not parse,
/// lists nothing later, or `secs` is a second chrono cannot hold.
pub uninterp spec fn cron_next_after(expr: Seq<char>, secs: int) -> Option<int>;

/// Whether `expr` is one of the cadences that the scheduler runs on.
pub open spec fn supported_cadence(expr: Seq<char>) -> bool {
    expr == HOURLY@ || expr == MINUTELY@
}

/// Relies on job_scheduler's `Schedule` (cron's): `expr` parsed by its
/// `FromStr`, then the first item of `Schedule::after` from `secs`, which
/// starts its search one second after `secs`. Cron adds that second with
/// chrono's panicking `+`, so `secs` stays below chrono's last second; and a
/// year field can make cron panic, so `expr` is one of the year-free cadences.
/// Cron's years start at 1970 and a search from before then keeps its month
/// and day (29 February of a leap year panics), so `secs` is not negative.
#[verifier::external_body]
fn next_event_after(expr: &str, secs: i64) -> (r: Option<i64>)
    requires
        0 <= secs < MAX_UTC_SECOND,
        supported_cadence(expr@),
    ensures
        match r {
            Some(t) => cron_next_after(expr@, secs as int) == Some(t as int),
            None => cron_next_after(expr@, secs as int) is None,
        },
        r matches Some(t) ==> t > secs,
{
    let schedule = expr.parse::<job_scheduler::Schedule>().ok()?;
    let from = chrono::DateTime::from_timestamp(secs, 0)?;
    schedule.after(&from).next().map(|d| d.timestamp())
}

/// At second zero of every hour.
pub const HOURLY: &'static str = "0 0 * * * * *";

/// At second zero of every minute.
pub const MINUTELY: &'static str = "0 * * * * * *";

/// A cron cadence bound to a pipeline mode, with the time it was last
/// looked at.
pub struct Trigger {
    pub mode: Mode,
    pub expr: String,
    pub last_tick: Option<i64>,
}

/// Whether a trigger comes due at `now`: it has been looked at before, at a
/// second from the epoch up to before chrono's last second, and the first event of its cadence after that lies
/// at or before `now`. A trigger runs at most once per tick, however many
/// events it missed.
pub open spec fn fires(t: Trigger, now: int) -> bool {
    match t.last_tick {
        None => false,
        Some(last) => 0 <= last < MAX_UTC_SECOND && match cron_next_after(t.expr@, last as int) {
            Some(event) => event <= now,
            None => false,
        },
    }
}

/// The modes of the triggers that come due at `now`, in trigger order.
pub open spec fn due_modes(triggers: Seq<Trigger>, now: int) -> Seq<Mode>
    decreases triggers.len(),
{
    if triggers.len() == 0 {
        Seq::empty()
    } else {
        let rest = due_modes(triggers.drop_last(), now);
        if fires(triggers.last(), now) {
            rest.push(triggers.last().mode)
        } else {
            rest
        }
    }
}

/// The dispatch table: which modes to run on each poll of the clock.
pub struct Scheduler {
    pub triggers: Vec<Trigger>,
}

impl Scheduler {
    /// Every trigger runs on a supported cadence.
    pub open spec fn wf(&self) -> bool {
        forall|i: int| 0 <= i < self.triggers@.len() ==> supported_cadence(#[trigger] self.triggers@[i].expr@)
    }

    /// History every hour, the latest price every minute; neither looked at yet.
    pub fn new() -> (r: Self)
        ensures
            r.wf(),
            r.triggers@.len() == 2,
            r.triggers@[0].mode == Mode::Historical,
            r.triggers@[0].expr@ == HOURLY@,
            r.triggers@[0].last_tick is None,
            r.triggers@[1].mode == Mode::Last,
            r.triggers@[1].expr@ == MINUTELY@,
            r.triggers@[1].last_tick is None,
    {
        let triggers = vec![
            Trigger { mode: Mode::Historical, expr: String::from_str(HOURLY), last_tick: None },
            Trigger { mode: Mode::Last, expr: String::from_str(MINUTELY), last_tick: None },
        ];
        Scheduler { triggers }
    }

    /// Polls the clock at `now`: the modes due, in trigger order; every
    /// trigger then counts as looked at `now`.
    pub fn tick(&mut self, now: i64) -> (r: Vec<Mode>)
        requires
            old(self).wf(),
        ensures
            final(self).wf(),
            r@ == due_modes(old(self).triggers@, now as int),
            final(self).triggers@.len() == old(self).triggers@.len(),
            forall|i: int|
                0 <= i < final(self).triggers@.len() ==> {
                    &&& (#[trigger] final(self).triggers@[i]).mode == old(self).triggers@[i].mode
                    &&& final(self).triggers@[i].expr == old(self).triggers@[i].expr
                    &&& final(self).triggers@[i].last_tick == Some(now)
                },
    {
        let mut due: Vec<Mode> = Vec::new();
        let mut seen: Vec<Trigger> = Vec::new();
        let mut i: usize = 0;
        while i < self.triggers.len()
            invariant
                0 <= i <= self.triggers@.len(),
                self.triggers@ == old(self).triggers@,
                self.wf(),
                due@ == due_modes(self.triggers@.take(i as int), now as int),
                seen@.len() == i,
                forall|k: int|
                    0 <= k < i ==> {
                        &&& (#[trigger] seen@[k]).mode == self.triggers@[k].mode
                        &&& seen@[k].expr == self.triggers@[k].expr
                        &&& seen@[k].last_tick == Some(now)
                    },
            decreases self.triggers@.len() - i,
        {
            let t = &self.triggers[i];
            assert(self.triggers@.take(i + 1).drop_last() =~= self.triggers@.take(i as int));
            assert(self.triggers@.take(i + 1).last() == *t);
            let fire = match t.last_tick {
                None => false,
                Some(last) => if 0 <= last && last < MAX_UTC_SECOND {
                    match next_event_after(t.expr.as_str(), last) {
                        Some(event) => event <= now,
                        None => false,
                    }
                } else {
                    false
                },
            };
            if fire {
                due.push(t.mode);
            }
            seen.push(Trigger { mode: t.mode, expr: t.expr.clone(), last_tick: Some(now) });
            i = i + 1;
        }
        assert(self.triggers@.take(i as int) =~= self.triggers@);
        self.triggers = seen;
        due
    }
}

} // verus!
