use vstd::prelude::*;
use crate::trigger_scheduler::{arms, trigger_delay, MoreOrEqualsAvailableRequestsCountTriggerScheduler};

verus! {

/// `w` with the leading timestamps that are no longer inside the period
/// ending at `now` taken off (`t + period <= now`).
pub open spec fn drop_expired(w: Seq<int>, now: int, period: int) -> Seq<int>
    decreases w.len(),
{
    if w.len() > 0 && w[0] + period <= now {
        drop_expired(w.drop_first(), now, period)
    } else {
        w
    }
}

pub open spec fn sorted(s: Seq<int>) -> bool {
    forall|i: int, j: int| 0 <= i <= j < s.len() ==> s[i] <= s[j]
}

/// Any `limit + 1` admissions span at least one whole period, so no
/// half-open interval of length `period` holds more than `limit` of them.
pub open spec fn spaced(admitted: Seq<int>, limit: int, period: int) -> bool {
    forall|i: int, j: int|
        0 <= i && i + limit <= j < admitted.len() ==> #[trigger] admitted[i] + period
            <= #[trigger] admitted[j]
}

/// A sliding-window limiter that admits at most `limit` requests per `period`
/// (times in milliseconds).
pub struct RequestsTimeoutManager {
    limit: usize,
    period: i64,
    window: Vec<i64>,
    clock: i64,
    admitted: Ghost<Seq<int>>,
}

impl RequestsTimeoutManager {
    pub closed spec fn limit_spec(&self) -> nat {
        self.limit as nat
    }

    pub closed spec fn period_spec(&self) -> int {
        self.period as int
    }

    /// The latest time the limiter has been asked at.
    pub closed spec fn clock_spec(&self) -> int {
        self.clock as int
    }

    /// Timestamps of the admitted requests that are still inside the period.
    pub closed spec fn window_spec(&self) -> Seq<int> {
        self.window@.map_values(|t: i64| t as int)
    }

    /// Timestamps of every request ever admitted, oldest first.
    pub closed spec fn admitted_spec(&self) -> Seq<int> {
        self.admitted@
    }

    pub closed spec fn wf(&self) -> bool {
        let a = self.admitted@;
        let w = self.window_spec();
        &&& self.period > 0
        &&& self.limit > 0
        &&& w.len() <= self.limit
        &&& sorted(a)
        &&& w.len() <= a.len()
        &&& w == a.subrange(a.len() - w.len(), a.len() as int)
        &&& forall|i: int| 0 <= i < a.len() ==> #[trigger] a[i] <= self.clock
        &&& forall|i: int| 0 <= i < w.len() ==> #[trigger] w[i] + self.period > self.clock
        &&& forall|i: int| 0 <= i < a.len() - w.len() ==> #[trigger] a[i] + self.period <= self.clock
        &&& spaced(a, self.limit as int, self.period as int)
    }

    /// A limiter of `limit` requests per `period` milliseconds, with nothing admitted yet.
    pub fn new(limit: usize, period: i64) -> (r: Self)
        requires
            limit > 0,
            period > 0,
        ensures
            r.wf(),
            r.limit_spec() == limit,
            r.period_spec() == period,
            r.window_spec().len() == 0,
            r.admitted_spec().len() == 0,
    {
        let r = RequestsTimeoutManager {
            limit,
            period,
            window: Vec::new(),
            clock: i64::MIN,
            admitted: Ghost(Seq::empty()),
        };
        assert(r.window_spec() =~= Seq::empty());
        assert(r.admitted@.subrange(0, 0) =~= Seq::empty());
        r
    }

    pub fn limit(&self) -> (r: usize)
        ensures
            r == self.limit_spec(),
    {
        self.limit
    }

    pub fn period(&self) -> (r: i64)
        ensures
            r == self.period_spec(),
    {
        self.period
    }

    /// Asks to admit a request at `now` (a clock that went back is read as the
    /// latest time seen). Expired timestamps leave the window first. Admits
    /// and returns how many requests remain available when fewer than `limit`
    /// are in the window; otherwise returns the earliest time of admission.
    pub fn try_reserve(&mut self, now: i64) -> (r: Result<usize, i128>)
        requires
            old(self).wf(),
        ensures
            final(self).wf(),
            final(self).limit_spec() == old(self).limit_spec(),
            final(self).period_spec() == old(self).period_spec(),
            final(self).clock_spec() == if now < old(self).clock_spec() {
                old(self).clock_spec()
            } else {
                now as int
            },
            ({
                let live = drop_expired(
                    old(self).window_spec(),
                    final(self).clock_spec(),
                    old(self).period_spec(),
                );
                match r {
                    Ok(available) => {
                        &&& live.len() < old(self).limit_spec()
                        &&& final(self).window_spec() == live.push(final(self).clock_spec())
                        &&& final(self).admitted_spec() == old(self).admitted_spec().push(final(self).clock_spec())
                        &&& available == old(self).limit_spec() - live.len() - 1
                    },
                    Err(earliest) => {
                        &&& live.len() >= old(self).limit_spec()
                        &&& final(self).window_spec() == live
                        &&& final(self).admitted_spec() == old(self).admitted_spec()
                        &&& earliest == live[0] + old(self).period_spec()
                    },
                }
            }),
    {
        let c = if now < self.clock { self.clock } else { now };
        self.clock = c;
        let ghost w0 = self.window_spec();
        let ghost a = self.admitted@;
        while self.window.len() > 0 && (self.window[0] as i128) + (self.period as i128) <= c as i128
            invariant
                self.period > 0,
                self.limit > 0,
                self.limit == old(self).limit,
                self.period == old(self).period,
                spaced(a, self.limit as int, self.period as int),
                self.clock == c,
                self.admitted@ == a,
                sorted(a),
                self.window_spec().len() <= self.limit,
                self.window_spec().len() <= a.len(),
                self.window_spec() == a.subrange(a.len() - self.window_spec().len(), a.len() as int),
                forall|i: int| 0 <= i < a.len() ==> #[trigger] a[i] <= c,
                forall|i: int|
                    0 <= i < a.len() - self.window_spec().len() ==> #[trigger] a[i] + self.period <= c,
                drop_expired(self.window_spec(), c as int, self.period as int) == drop_expired(
                    w0,
                    c as int,
                    self.period as int,
                ),
            decreases self.window@.len(),
        {
            let ghost before = self.window_spec();
            assert(before[0] == self.window@[0] as int);
            self.window.remove(0);
            assert(self.window_spec() =~= before.drop_first());
            proof {
                let k = a.len() - before.len();
                assert(a[k] == before[0]);
                assert forall|i: int| 0 <= i < a.len() - self.window_spec().len() implies #[trigger] a[i] + self.period <= c by {
                    if i == k {
                        assert(a[k] == before[0]);
                    }
                }
            }
        }
        let ghost live = self.window_spec();
        proof {
            assert forall|i: int| 0 <= i < live.len() implies #[trigger] live[i] + self.period > c by {
                let k = a.len() - live.len();
                assert(live[0] == a[k]);
                assert(live[i] == a[k + i]);
            }
        }
        if self.window.len() < self.limit {
            self.window.push(c);
            let ghost m = a.len() as int;
            self.admitted = Ghost(a.push(c as int));
            proof {
                let a2 = a.push(c as int);
                assert(self.window_spec() =~= live.push(c as int));
                assert(self.window_spec() =~= a2.subrange(a2.len() - self.window_spec().len(), a2.len() as int));
                assert forall|i: int, j: int|
                    0 <= i && i + self.limit <= j < a2.len() implies #[trigger] a2[i] + self.period <= #[trigger] a2[j] by {
                    if j == m {
                        assert(i < m - live.len());
                        assert(a2[i] == a[i]);
                    } else {
                        assert(a2[i] == a[i] && a2[j] == a[j]);
                    }
                }
            }
            Ok(self.limit - self.window.len())
        } else {
            let earliest = (self.window[0] as i128) + (self.period as i128);
            Err(earliest)
        }
    }

    /// How many more requests the window `(t - period, t]` has room for,
    /// counting the requests the limiter still holds.
    pub fn available_on(&self, t: i64) -> (r: usize)
        requires
            self.wf(),
        ensures
            r == self.limit_spec() - count_in_window(self.window_spec(), t as int, self.period_spec()),
    {
        let ghost w = self.window_spec();
        let mut count: usize = 0;
        let mut i: usize = 0;
        while i < self.window.len()
            invariant
                0 <= i <= w.len(),
                w == self.window_spec(),
                w.len() == self.window@.len(),
                w.len() <= self.limit,
                count == count_in_window(w.subrange(0, i as int), t as int, self.period as int),
                count <= i,
            decreases w.len() - i,
        {
            assert(w.subrange(0, i + 1).drop_last() =~= w.subrange(0, i as int));
            assert(w[i as int] == self.window@[i as int] as int);
            let ts = self.window[i];
            if (t as i128) - (self.period as i128) < ts as i128 && ts <= t {
                count = count + 1;
            }
            i = i + 1;
        }
        assert(w.subrange(0, w.len() as int) =~= w);
        self.limit - count
    }

    /// Admits a request at `now` as [`Self::try_reserve`]; once admitted, the
    /// triggers get a tick with the requests still available, the time of
    /// this request as the last one, and the period. Returns what each
    /// trigger scheduled.
    pub fn reserve_and_schedule(
        &mut self,
        now: i64,
        scheduler: &mut MoreOrEqualsAvailableRequestsCountTriggerScheduler,
    ) -> (r: Result<Vec<Option<i128>>, i128>)
        requires
            old(self).wf(),
        ensures
            final(self).wf(),
            final(self).limit_spec() == old(self).limit_spec(),
            final(self).period_spec() == old(self).period_spec(),
            final(self).clock_spec() == if now < old(self).clock_spec() {
                old(self).clock_spec()
            } else {
                now as int
            },
            ({
                let live = drop_expired(
                    old(self).window_spec(),
                    final(self).clock_spec(),
                    old(self).period_spec(),
                );
                match r {
                    Ok(scheduled) => {
                        let available = (old(self).limit_spec() - live.len() - 1) as usize;
                        &&& live.len() < old(self).limit_spec()
                        &&& final(self).window_spec() == live.push(final(self).clock_spec())
                        &&& final(self).admitted_spec() == old(self).admitted_spec().push(final(self).clock_spec())
                        &&& scheduled@.len() == old(scheduler).triggers_spec().len()
                        &&& final(scheduler).triggers_spec().len() == old(scheduler).triggers_spec().len()
                        &&& forall|i: int| 0 <= i < scheduled@.len() ==> {
                            let t = old(scheduler).triggers_spec()[i];
                            let fires = arms(t.0, t.1, available);
                            &&& #[trigger] final(scheduler).triggers_spec()[i] == (t.0, t.1 || fires)
                            &&& scheduled@[i] == if fires {
                                Some(old(self).period_spec() as i128)
                            } else {
                                None::<i128>
                            }
                        }
                    },
                    Err(earliest) => {
                        &&& live.len() >= old(self).limit_spec()
                        &&& final(self).window_spec() == live
                        &&& final(self).admitted_spec() == old(self).admitted_spec()
                        &&& earliest == live[0] + old(self).period_spec()
                        &&& *final(scheduler) == *old(scheduler)
                    },
                }
            }),
    {
        match self.try_reserve(now) {
            Ok(available) => {
                let t = self.clock;
                let scheduled = scheduler.schedule_triggers_at(available, t, self.period, t);
                assert(trigger_delay(t as int, self.period as int, t as int) == self.period as int);
                Ok(scheduled)
            },
            Err(earliest) => Err(earliest),
        }
    }
}

/// How many of the timestamps `s` lie in the window `(end - period, end]`.
pub open spec fn count_in_window(s: Seq<int>, end: int, period: int) -> nat
    decreases s.len(),
{
    if s.len() == 0 {
        0
    } else {
        count_in_window(s.drop_last(), end, period) + if end - period < s.last() <= end {
            1nat
        } else {
            0nat
        }
    }
}

proof fn lemma_count_after_prefix(s: Seq<int>, k: int, end: int, period: int)
    requires
        -1 <= k < s.len(),
        forall|i: int| 0 <= i <= k ==> #[trigger] s[i] <= end - period,
    ensures
        count_in_window(s, end, period) <= s.len() - (k + 1),
    decreases s.len(),
{
    if s.len() > 0 {
        if s.len() - 1 > k {
            lemma_count_after_prefix(s.drop_last(), k, end, period);
        } else {
            assert(s.last() == s[k]);
            lemma_count_after_prefix(s.drop_last(), k - 1, end, period);
        }
    }
}

proof fn lemma_count_bounded(s: Seq<int>, limit: int, end: int, period: int)
    requires
        limit >= 0,
        sorted(s),
        spaced(s, limit, period),
    ensures
        count_in_window(s, end, period) <= limit,
    decreases s.len(),
{
    if s.len() > 0 {
        let n = s.len() as int;
        let rest = s.drop_last();
        assert(sorted(rest)) by {
            assert forall|i: int, j: int| 0 <= i <= j < rest.len() implies rest[i] <= rest[j] by {
                assert(rest[i] == s[i] && rest[j] == s[j]);
            }
        }
        assert(spaced(rest, limit, period)) by {
            assert forall|i: int, j: int| 0 <= i && i + limit <= j < rest.len() implies #[trigger] rest[i] + period <= #[trigger] rest[j] by {
                assert(rest[i] == s[i] && rest[j] == s[j]);
            }
        }
        lemma_count_bounded(rest, limit, end, period);
        if end - period < s.last() <= end && n - 1 - limit >= 0 {
            let k = n - 1 - limit;
            assert(s[k] + period <= s[n - 1]);
            assert forall|i: int| 0 <= i <= k implies #[trigger] rest[i] <= end - period by {
                assert(rest[i] == s[i]);
                assert(s[i] <= s[k]);
            }
            lemma_count_after_prefix(rest, k, end, period);
        } else {
            lemma_count_after_prefix(s, -1, end, period);
        }
    }
}

/// For every window `(end - period, end]`, the requests that a limiter has
/// admitted in it are at most `limit`.
pub proof fn lemma_rate_limit(m: &RequestsTimeoutManager, end: int)
    requires
        m.wf(),
    ensures
        count_in_window(m.admitted_spec(), end, m.period_spec()) <= m.limit_spec(),
{
    lemma_count_bounded(m.admitted_spec(), m.limit_spec() as int, end, m.period_spec());
}

/// Whatever sequence of requests a limiter has admitted, no half-open interval
/// `(t - period, t]` holds more than `limit` of them: any `limit + 1`
/// admissions lie at least a whole period apart.
pub proof fn lemma_admissions_per_period(m: &RequestsTimeoutManager, i: int, j: int)
    requires
        m.wf(),
        0 <= i,
        i + m.limit_spec() <= j < m.admitted_spec().len(),
    ensures
        m.admitted_spec()[i] + m.period_spec() <= m.admitted_spec()[j],
{
    assert(m.admitted_spec()[i] + m.period_spec() <= m.admitted_spec()[j]);
}

} // verus!
