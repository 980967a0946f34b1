use vstd::prelude::*;

verus! {

/// How long an armed trigger waits before its handler runs, in milliseconds:
/// until the period that began with the last request is over, and never
/// less than zero.
pub open spec fn trigger_delay(last_request_time: int, period: int, current_time: int) -> int {
    if last_request_time + period - current_time < 0 {
        0
    } else {
        last_request_time + period - current_time
    }
}

/// A trigger arms on a tick where fewer than its threshold of requests are
/// available, unless it is armed already.
pub open spec fn arms(count_threshold: usize, armed: bool, available: usize) -> bool {
    !armed && available < count_threshold
}

/// What a tick at `current_time` hands out to triggers in state `triggers`:
/// for each, the delay of its handler where it arms, `None` otherwise.
pub open spec fn delays_at(
    triggers: Seq<(usize, bool)>,
    available: usize,
    last_request_time: int,
    period: int,
    current_time: int,
) -> Seq<Option<i128>> {
    Seq::new(
        triggers.len(),
        |i: int|
            if arms(triggers[i].0, triggers[i].1, available) {
                Some(trigger_delay(last_request_time, period, current_time) as i128)
            } else {
                None::<i128>
            },
    )
}

/// Runs a handler once at least `count_threshold` requests are available
/// again. While armed, one delayed run of the handler is pending.
pub struct MoreOrEqualsAvailableRequestsCountTrigger {
    count_threshold: usize,
    armed: bool,
}

impl MoreOrEqualsAvailableRequestsCountTrigger {
    pub closed spec fn threshold_spec(&self) -> usize {
        self.count_threshold
    }

    pub closed spec fn is_armed_spec(&self) -> bool {
        self.armed
    }

    pub fn new(count_threshold: usize) -> (r: Self)
        ensures
            r.threshold_spec() == count_threshold,
            !r.is_armed_spec(),
    {
        MoreOrEqualsAvailableRequestsCountTrigger { count_threshold, armed: false }
    }

    pub fn count_threshold(&self) -> (r: usize)
        ensures
            r == self.threshold_spec(),
    {
        self.count_threshold
    }

    pub fn is_armed(&self) -> (r: bool)
        ensures
            r == self.is_armed_spec(),
    {
        self.armed
    }

    /// On a scheduler tick: where the trigger arms, returns the delay after
    /// which its handler is to run; otherwise nothing is scheduled.
    pub fn schedule_handler(
        &mut self,
        available_requests_count_on_last_request_time: usize,
        last_request_time: i64,
        period_duration: i64,
        current_time: i64,
    ) -> (r: Option<i128>)
        ensures
            final(self).threshold_spec() == old(self).threshold_spec(),
            final(self).is_armed_spec() == (old(self).is_armed_spec() || r is Some),
            r == if arms(
                old(self).threshold_spec(),
                old(self).is_armed_spec(),
                available_requests_count_on_last_request_time,
            ) {
                Some(trigger_delay(last_request_time as int, period_duration as int, current_time as int) as i128)
            } else {
                None::<i128>
            },
    {
        if self.armed || available_requests_count_on_last_request_time >= self.count_threshold {
            return None;
        }
        let trigger_time = (last_request_time as i128) + (period_duration as i128);
        let delay = trigger_time - (current_time as i128);
        let delay = if delay < 0 {
            0
        } else {
            delay
        };
        self.armed = true;
        Some(delay)
    }

    /// The pending handler has run (or failed): the trigger may arm again.
    pub fn handler_finished(&mut self)
        ensures
            final(self).threshold_spec() == old(self).threshold_spec(),
            !final(self).is_armed_spec(),
    {
        self.armed = false;
    }
}

/// The triggers registered against one exchange's request limiter.
pub struct MoreOrEqualsAvailableRequestsCountTriggerScheduler {
    increasing_count_triggers: Vec<MoreOrEqualsAvailableRequestsCountTrigger>,
}

/// Relies on chrono's `From<SystemTime> for DateTime<Utc>` and
/// `DateTime::timestamp_millis`: the current system time in milliseconds since
/// the Unix epoch, negative for a clock set before it. Nothing is stated of its
/// value.
#[verifier::external_body]
fn utc_now_millis() -> (r: i64) {
    chrono::DateTime::<chrono::Utc>::from(std::time::SystemTime::now()).timestamp_millis()
}

impl MoreOrEqualsAvailableRequestsCountTriggerScheduler {
    /// `(threshold, armed)` of every trigger, in order of registration.
    pub closed spec fn triggers_spec(&self) -> Seq<(usize, bool)> {
        self.increasing_count_triggers@.map_values(
            |t: MoreOrEqualsAvailableRequestsCountTrigger| (t.count_threshold, t.armed),
        )
    }

    pub fn new() -> (r: Self)
        ensures
            r.triggers_spec().len() == 0,
    {
        let r = MoreOrEqualsAvailableRequestsCountTriggerScheduler { increasing_count_triggers: Vec::new() };
        assert(r.triggers_spec() =~= Seq::empty());
        r
    }

    pub fn trigger_count(&self) -> (r: usize)
        ensures
            r == self.triggers_spec().len(),
    {
        self.increasing_count_triggers.len()
    }

    /// The current time in milliseconds since the Unix epoch.
    pub fn utc_now() -> (r: i64) {
        utc_now_millis()
    }

    /// Adds a disarmed trigger and returns its index.
    pub fn register_trigger(&mut self, count_threshold: usize) -> (r: usize)
        ensures
            r == old(self).triggers_spec().len(),
            final(self).triggers_spec() == old(self).triggers_spec().push((count_threshold, false)),
    {
        let r = self.increasing_count_triggers.len();
        self.increasing_count_triggers.push(MoreOrEqualsAvailableRequestsCountTrigger::new(count_threshold));
        assert(final(self).triggers_spec() =~= old(self).triggers_spec().push((count_threshold, false)));
        r
    }

    /// The pending handler of trigger `index` has run: it is disarmed.
    pub fn handler_finished(&mut self, index: usize)
        requires
            index < old(self).triggers_spec().len(),
        ensures
            final(self).triggers_spec() == old(self).triggers_spec().update(
                index as int,
                (old(self).triggers_spec()[index as int].0, false),
            ),
    {
        let t = self.increasing_count_triggers[index].count_threshold;
        self.increasing_count_triggers.set(index, MoreOrEqualsAvailableRequestsCountTrigger::new(t));
        assert(self.triggers_spec() =~= old(self).triggers_spec().update(
            index as int,
            (old(self).triggers_spec()[index as int].0, false),
        ));
    }

    /// One tick at `current_time`: every trigger that arms gets the delay of
    /// its handler at its own index; the others get `None`.
    pub fn schedule_triggers_at(
        &mut self,
        available_requests_count_on_last_request_time: usize,
        last_request_time: i64,
        period_duration: i64,
        current_time: i64,
    ) -> (r: Vec<Option<i128>>)
        ensures
            r@.len() == old(self).triggers_spec().len(),
            final(self).triggers_spec().len() == old(self).triggers_spec().len(),
            forall|i: int|
                0 <= i < r@.len() ==> {
                    let t = old(self).triggers_spec()[i];
                    let fires = arms(t.0, t.1, available_requests_count_on_last_request_time);
                    &&& #[trigger] final(self).triggers_spec()[i] == (t.0, t.1 || fires)
                    &&& r@[i] == if fires {
                        Some(trigger_delay(last_request_time as int, period_duration as int, current_time as int) as i128)
                    } else {
                        None::<i128>
                    }
                },
            r@ == delays_at(
                old(self).triggers_spec(),
                available_requests_count_on_last_request_time,
                last_request_time as int,
                period_duration as int,
                current_time as int,
            ),
    {
        let mut r: Vec<Option<i128>> = Vec::new();
        let n = self.increasing_count_triggers.len();
        let mut i: usize = 0;
        while i < n
            invariant
                0 <= i <= n,
                n == old(self).triggers_spec().len(),
                self.triggers_spec().len() == n,
                r@.len() == i,
                forall|k: int| i <= k < n ==> #[trigger] self.triggers_spec()[k] == old(self).triggers_spec()[k],
                forall|k: int|
                    0 <= k < i ==> {
                        let t = old(self).triggers_spec()[k];
                        let fires = arms(t.0, t.1, available_requests_count_on_last_request_time);
                        &&& #[trigger] self.triggers_spec()[k] == (t.0, t.1 || fires)
                        &&& r@[k] == if fires {
                            Some(trigger_delay(last_request_time as int, period_duration as int, current_time as int) as i128)
                        } else {
                            None::<i128>
                        }
                    },
            decreases n - i,
        {
            let ghost t_old = old(self).triggers_spec()[i as int];
            assert(self.triggers_spec()[i as int] == t_old);
            let mut trigger = MoreOrEqualsAvailableRequestsCountTrigger {
                count_threshold: self.increasing_count_triggers[i].count_threshold,
                armed: self.increasing_count_triggers[i].armed,
            };
            let delay = trigger.schedule_handler(
                available_requests_count_on_last_request_time,
                last_request_time,
                period_duration,
                current_time,
            );
            let ghost before = self.triggers_spec();
            self.increasing_count_triggers.set(i, trigger);
            assert(self.triggers_spec() =~= before.update(i as int, (trigger.count_threshold, trigger.armed)));
            let ghost r_before = r@;
            r.push(delay);
            proof {
                assert(self.triggers_spec()[i as int] == (t_old.0, t_old.1 || arms(t_old.0, t_old.1, available_requests_count_on_last_request_time)));
                assert forall|k: int| 0 <= k < i implies r@[k] == r_before[k] by {}
            }
            i = i + 1;
        }
        assert forall|k: int| 0 <= k < n implies r@[k] == delays_at(
            old(self).triggers_spec(),
            available_requests_count_on_last_request_time,
            last_request_time as int,
            period_duration as int,
            current_time as int,
        )[k] by {
            assert(self.triggers_spec()[k].0 == old(self).triggers_spec()[k].0);
        }
        assert(r@ =~= delays_at(
            old(self).triggers_spec(),
            available_requests_count_on_last_request_time,
            last_request_time as int,
            period_duration as int,
            current_time as int,
        ));
        r
    }

    /// One tick at the current time: as [`Self::schedule_triggers_at`] for
    /// whatever time the clock gave.
    pub fn schedule_triggers(
        &mut self,
        available_requests_count_on_last_request_time: usize,
        last_request_time: i64,
        period_duration: i64,
    ) -> (r: Vec<Option<i128>>)
        ensures
            r@.len() == old(self).triggers_spec().len(),
            final(self).triggers_spec().len() == old(self).triggers_spec().len(),
            forall|i: int|
                0 <= i < r@.len() ==> {
                    let t = old(self).triggers_spec()[i];
                    #[trigger] final(self).triggers_spec()[i] == (t.0, t.1 || arms(
                        t.0,
                        t.1,
                        available_requests_count_on_last_request_time,
                    ))
                },
            exists|current_time: i64|
                r@ == #[trigger] delays_at(
                    old(self).triggers_spec(),
                    available_requests_count_on_last_request_time,
                    last_request_time as int,
                    period_duration as int,
                    current_time as int,
                ),
    {
        let current_time = Self::utc_now();
        let r = self.schedule_triggers_at(
            available_requests_count_on_last_request_time,
            last_request_time,
            period_duration,
            current_time,
        );
        assert(r@ == delays_at(
            old(self).triggers_spec(),
            available_requests_count_on_last_request_time,
            last_request_time as int,
            period_duration as int,
            current_time as int,
        ));
        r
    }
}

} // verus!
