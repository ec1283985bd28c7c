//! How many requests a provider is sent within a rolling window of time.
use crate::text::same;
use vstd::prelude::*;
use vstd::string::*;

verus! {

/// The time that is waited beyond the end of the window, in nanoseconds.
pub const MARGIN: u128 = 10_000_000;

/// Limits the requests to each provider within a rolling window. Times are in nanoseconds, counted
/// from a common origin.
pub struct RateLimiter {
    buckets: Vec<(String, Vec<u128>)>,
    max_rpm: u32,
    window: u128,
}

/// The time that has passed at `now` since `t`; none if `t` lies ahead.
pub open spec fn elapsed(now: u128, t: u128) -> int {
    if now >= t {
        now - t
    } else {
        0
    }
}

/// The requests that still count at `now`: those within the window.
pub open spec fn recent(times: Seq<u128>, window: u128, now: u128) -> Seq<u128>
    decreases times.len(),
{
    if times.len() == 0 {
        Seq::empty()
    } else if elapsed(now, times.last()) < window {
        recent(times.drop_last(), window, now).push(times.last())
    } else {
        recent(times.drop_last(), window, now)
    }
}

/// What a request at `now` meets: the requests that are on record afterwards, and how long it has
/// to wait. One that need not wait is put on record. Where there is no room and nothing on record,
/// as under a limit of zero, the wait is a whole window.
pub open spec fn checked(times: Seq<u128>, max: nat, window: u128, now: u128) -> (
    Seq<u128>,
    Option<int>,
) {
    let r = recent(times, window, now);
    if r.len() < max {
        (r.push(now), None)
    } else if r.len() > 0 {
        (r, Some(window - elapsed(now, r[0]) + MARGIN))
    } else {
        (r, Some(window + MARGIN))
    }
}

/// The requests on record for a provider: those of the first bucket with its name.
pub open spec fn bucket_of(b: Seq<(String, Vec<u128>)>, provider: Seq<char>) -> Seq<u128>
    decreases b.len(),
{
    if b.len() == 0 {
        Seq::empty()
    } else if b[0].0@ == provider {
        b[0].1@
    } else {
        bucket_of(b.skip(1), provider)
    }
}

/// The requests that still count are among those on record, and their time has not run out.
pub proof fn lemma_recent(times: Seq<u128>, window: u128, now: u128)
    ensures
        recent(times, window, now).len() <= times.len(),
        forall|i: int|
            0 <= i < recent(times, window, now).len() ==> elapsed(
                now,
                #[trigger] recent(times, window, now)[i],
            ) < window,
    decreases times.len(),
{
    if times.len() > 0 {
        lemma_recent(times.drop_last(), window, now);
    }
}

proof fn lemma_bucket_update(b: Seq<(String, Vec<u128>)>, k: int, v: Vec<u128>, provider: Seq<char>)
    requires
        0 <= k < b.len(),
        forall|i: int| 0 <= i < k ==> (#[trigger] b[i]).0@ != b[k].0@,
    ensures
        bucket_of(b.update(k, (b[k].0, v)), provider) == if provider == b[k].0@ {
            v@
        } else {
            bucket_of(b, provider)
        },
        bucket_of(b, b[k].0@) == b[k].1@,
    decreases b.len(),
{
    let u = b.update(k, (b[k].0, v));
    if k == 0 {
        assert(u.skip(1) =~= b.skip(1));
    } else {
        let t = b.skip(1);
        assert(u.skip(1) =~= t.update(k - 1, (t[k - 1].0, v)));
        assert forall|i: int| 0 <= i < k - 1 implies (#[trigger] t[i]).0@ != t[k - 1].0@ by {
            assert(t[i] == b[i + 1]);
        }
        lemma_bucket_update(t, k - 1, v, provider);
        assert(b[0].0@ != b[k].0@);
    }
}

proof fn lemma_bucket_push(b: Seq<(String, Vec<u128>)>, x: (String, Vec<u128>), provider: Seq<char>)
    requires
        forall|i: int| 0 <= i < b.len() ==> (#[trigger] b[i]).0@ != x.0@,
    ensures
        bucket_of(b.push(x), provider) == if provider == x.0@ {
            x.1@
        } else {
            bucket_of(b, provider)
        },
    decreases b.len(),
{
    if b.len() > 0 {
        let t = b.skip(1);
        assert(b.push(x).skip(1) =~= t.push(x));
        assert forall|i: int| 0 <= i < t.len() implies (#[trigger] t[i]).0@ != x.0@ by {
            assert(t[i] == b[i + 1]);
        }
        lemma_bucket_push(t, x, provider);
        assert(b.push(x)[0] == b[0]);
    } else {
        assert(b.push(x).skip(1) =~= Seq::empty());
        reveal_with_fuel(bucket_of, 2);
    }
}

proof fn lemma_bucket_absent(b: Seq<(String, Vec<u128>)>, provider: Seq<char>)
    requires
        forall|i: int| 0 <= i < b.len() ==> (#[trigger] b[i]).0@ != provider,
    ensures
        bucket_of(b, provider) == Seq::<u128>::empty(),
    decreases b.len(),
{
    if b.len() > 0 {
        assert forall|i: int| 0 <= i < b.skip(1).len() implies (#[trigger] b.skip(1)[i]).0@
            != provider by {
            assert(b.skip(1)[i] == b[i + 1]);
        }
        lemma_bucket_absent(b.skip(1), provider);
    }
}

fn keep_recent(times: &Vec<u128>, window: u128, now: u128) -> (r: Vec<u128>)
    ensures
        r@ == recent(times@, window, now),
{
    let mut out: Vec<u128> = Vec::new();
    let mut i: usize = 0;
    assert(times@.take(0) =~= Seq::empty());
    while i < times.len()
        invariant
            i <= times@.len(),
            out@ == recent(times@.take(i as int), window, now),
        decreases times@.len() - i,
    {
        assert(times@.take(i + 1).drop_last() =~= times@.take(i as int));
        let passed: u128 = if now >= times[i] {
            now - times[i]
        } else {
            0
        };
        if passed < window {
            out.push(times[i]);
        }
        i += 1;
    }
    assert(times@.take(times@.len() as int) =~= times@);
    out
}

impl RateLimiter {
    /// The requests on record for a provider.
    pub closed spec fn requests(&self, provider: Seq<char>) -> Seq<u128> {
        bucket_of(self.buckets@, provider)
    }

    /// The limit.
    pub closed spec fn limit(&self) -> u32 {
        self.max_rpm
    }

    /// The length of the window.
    pub closed spec fn span(&self) -> u128 {
        self.window
    }

    /// No provider has more requests on record than the limit allows.
    pub closed spec fn well_formed(&self) -> bool {
        &&& self.window <= u128::MAX - MARGIN
        &&& forall|i: int| 0 <= i < self.buckets@.len() ==> (#[trigger] self.buckets@[i]).1@.len()
            <= self.max_rpm
    }

    /// A limiter with its own window.
    pub fn with_window(max_rpm: u32, window: u128) -> (r: Self)
        requires
            window <= u128::MAX - MARGIN,
        ensures
            r.well_formed(),
            r.limit() == max_rpm,
            r.span() == window,
            forall|p: Seq<char>| r.requests(p) == Seq::<u128>::empty(),
    {
        RateLimiter { buckets: Vec::new(), max_rpm, window }
    }

    /// A limiter with a window of a minute.
    pub fn new(max_rpm: u32) -> (r: Self)
        ensures
            r.well_formed(),
            r.limit() == max_rpm,
            r.span() == 60_000_000_000,
            forall|p: Seq<char>| r.requests(p) == Seq::<u128>::empty(),
    {
        Self::with_window(max_rpm, 60_000_000_000)
    }

    fn find(&self, provider: &str) -> (r: usize)
        ensures
            r <= self.buckets@.len(),
            r < self.buckets@.len() ==> self.buckets@[r as int].0@ == provider@,
            forall|i: int| 0 <= i < r ==> (#[trigger] self.buckets@[i]).0@ != provider@,
    {
        let mut i: usize = 0;
        while i < self.buckets.len() && !same(self.buckets[i].0.as_str(), provider)
            invariant
                i <= self.buckets@.len(),
                forall|k: int| 0 <= k < i ==> (#[trigger] self.buckets@[k]).0@ != provider@,
            decreases self.buckets@.len() - i,
        {
            i += 1;
        }
        i
    }

    fn put(&mut self, provider: &str, times: Vec<u128>)
        requires
            old(self).well_formed(),
            times@.len() <= old(self).limit(),
        ensures
            final(self).well_formed(),
            final(self).limit() == old(self).limit(),
            final(self).span() == old(self).span(),
            final(self).requests(provider@) == times@,
            forall|p: Seq<char>|
                p != provider@ ==> final(self).requests(p) == old(self).requests(p),
    {
        let i = self.find(provider);
        let ghost b = self.buckets@;
        let entry = (String::from_str(provider), times);
        if i < self.buckets.len() {
            let entry = (self.buckets[i].0.clone(), entry.1);
            self.buckets.set(i, entry);
            proof {
                lemma_bucket_update(b, i as int, entry.1, provider@);
                assert forall|p: Seq<char>| p != provider@ implies self.requests(p) == old(
                    self,
                ).requests(p) by {
                    lemma_bucket_update(b, i as int, entry.1, p);
                }
            }
        } else {
            self.buckets.push(entry);
            proof {
                lemma_bucket_push(b, entry, provider@);
                assert forall|p: Seq<char>| p != provider@ implies self.requests(p) == old(
                    self,
                ).requests(p) by {
                    lemma_bucket_push(b, entry, p);
                }
            }
        }
    }

    fn take_recent(&self, provider: &str, now: u128) -> (r: Vec<u128>)
        requires
            self.well_formed(),
        ensures
            r@ == recent(self.requests(provider@), self.span(), now),
            r@.len() <= self.limit(),
    {
        let i = self.find(provider);
        if i < self.buckets.len() {
            proof {
                lemma_bucket_update(
                    self.buckets@,
                    i as int,
                    self.buckets@[i as int].1,
                    provider@,
                );
                lemma_recent(self.buckets@[i as int].1@, self.window, now);
            }
            keep_recent(&self.buckets[i].1, self.window, now)
        } else {
            proof {
                lemma_bucket_absent(self.buckets@, provider@);
            }
            Vec::new()
        }
    }

    /// How many requests a provider was sent within the window. Older ones are forgotten.
    pub fn current_rpm(&mut self, provider: &str, now: u128) -> (r: u32)
        requires
            old(self).well_formed(),
        ensures
            final(self).well_formed(),
            final(self).limit() == old(self).limit(),
            final(self).span() == old(self).span(),
            final(self).requests(provider@) == recent(
                old(self).requests(provider@),
                old(self).span(),
                now,
            ),
            forall|p: Seq<char>|
                p != provider@ ==> final(self).requests(p) == old(self).requests(p),
            r == recent(old(self).requests(provider@), old(self).span(), now).len(),
    {
        let entries = self.take_recent(provider, now);
        let n: u32 = entries.len() as u32;
        self.put(provider, entries);
        n
    }

    /// How many requests a provider may still be sent within the window.
    pub fn remaining(&mut self, provider: &str, now: u128) -> (r: u32)
        requires
            old(self).well_formed(),
        ensures
            final(self).well_formed(),
            final(self).limit() == old(self).limit(),
            final(self).span() == old(self).span(),
            final(self).requests(provider@) == recent(
                old(self).requests(provider@),
                old(self).span(),
                now,
            ),
            forall|p: Seq<char>|
                p != provider@ ==> final(self).requests(p) == old(self).requests(p),
            r == old(self).limit() - recent(
                old(self).requests(provider@),
                old(self).span(),
                now,
            ).len(),
    {
        proof {
            lemma_at_most(*self, provider@, now);
        }
        let current = self.current_rpm(provider, now);
        self.max_rpm.saturating_sub(current)
    }

    /// The limit.
    pub fn max_rpm(&self) -> (r: u32)
        ensures
            r == self.limit(),
    {
        self.max_rpm
    }

    /// Asks for leave to send a request at `now`. What comes back is how long to wait before
    /// asking again; nothing means that the request may be sent.
    pub fn check_and_wait(&mut self, provider: &str, now: u128) -> (r: Option<u128>)
        requires
            old(self).well_formed(),
        ensures
            final(self).well_formed(),
            final(self).limit() == old(self).limit(),
            final(self).span() == old(self).span(),
            ({
                let (times, wait) = checked(
                    old(self).requests(provider@),
                    old(self).limit() as nat,
                    old(self).span(),
                    now,
                );
                &&& final(self).requests(provider@) == times
                &&& match r {
                    Some(w) => wait == Some(w as int),
                    None => wait is None,
                }
            }),
            forall|p: Seq<char>|
                p != provider@ ==> final(self).requests(p) == old(self).requests(p),
    {
        let mut entries = self.take_recent(provider, now);
        let ghost times = self.requests(provider@);
        let mut wait: Option<u128> = None;
        if entries.len() < self.max_rpm as usize {
            entries.push(now);
        } else if entries.len() > 0 {
            proof {
                lemma_recent(times, self.window, now);
            }
            let oldest: u128 = entries[0];
            let passed: u128 = if now >= oldest {
                now - oldest
            } else {
                0
            };
            wait = Some(self.window - passed + MARGIN);
        } else {
            wait = Some(self.window + MARGIN);
        }
        self.put(provider, entries);
        wait
    }
}

proof fn lemma_at_most(l: RateLimiter, provider: Seq<char>, now: u128)
    requires
        l.well_formed(),
    ensures
        recent(l.requests(provider), l.span(), now).len() <= l.limit(),
{
    lemma_recent(l.requests(provider), l.span(), now);
    lemma_bucket_small(l.buckets@, l.max_rpm as nat, provider);
}

proof fn lemma_bucket_small(b: Seq<(String, Vec<u128>)>, max: nat, provider: Seq<char>)
    requires
        forall|i: int| 0 <= i < b.len() ==> (#[trigger] b[i]).1@.len() <= max,
    ensures
        bucket_of(b, provider).len() <= max,
    decreases b.len(),
{
    if b.len() > 0 {
        assert forall|i: int| 0 <= i < b.skip(1).len() implies (#[trigger] b.skip(1)[i]).1@.len()
            <= max by {
            assert(b.skip(1)[i] == b[i + 1]);
        }
        lemma_bucket_small(b.skip(1), max, provider);
    }
}

// ---------------------------------------------------------------------------------------------
// Requests over time
// ---------------------------------------------------------------------------------------------

/// A question about a provider at a time: whether a request may be sent, or only how many were.
pub struct Visit {
    pub at: u128,
    pub sends: bool,
}

/// Whether visits are in the order of their times.
pub open spec fn in_order(v: Seq<Visit>) -> bool {
    forall|i: int, j: int| 0 <= i <= j < v.len() ==> (#[trigger] v[i]).at <= (#[trigger] v[j]).at
}

/// What is on record for a provider after some visits.
pub open spec fn record(v: Seq<Visit>, max: nat, window: u128) -> Seq<u128>
    decreases v.len(),
{
    if v.len() == 0 {
        Seq::empty()
    } else {
        let before = record(v.drop_last(), max, window);
        if v.last().sends {
            checked(before, max, window, v.last().at).0
        } else {
            recent(before, window, v.last().at)
        }
    }
}

/// The times at which requests were let through.
pub open spec fn passed(v: Seq<Visit>, max: nat, window: u128) -> Seq<u128>
    decreases v.len(),
{
    if v.len() == 0 {
        Seq::empty()
    } else {
        let before = passed(v.drop_last(), max, window);
        let wait = checked(record(v.drop_last(), max, window), max, window, v.last().at).1;
        if v.last().sends && wait is None {
            before.push(v.last().at)
        } else {
            before
        }
    }
}

proof fn lemma_recent_twice(times: Seq<u128>, window: u128, t: u128, now: u128)
    requires
        t <= now,
        forall|i: int| 0 <= i < times.len() ==> (#[trigger] times[i]) <= t,
    ensures
        recent(recent(times, window, t), window, now) == recent(times, window, now),
    decreases times.len(),
{
    if times.len() > 0 {
        let rest = times.drop_last();
        assert forall|i: int| 0 <= i < rest.len() implies (#[trigger] rest[i]) <= t by {
            assert(rest[i] == times[i]);
        }
        lemma_recent_twice(rest, window, t, now);
        let r = recent(rest, window, t);
        if elapsed(t, times.last()) < window {
            assert(r.push(times.last()).drop_last() =~= r);
        }
    }
}

proof fn lemma_passed(v: Seq<Visit>, max: nat, window: u128)
    requires
        in_order(v),
        v.len() > 0,
        window > 0,
    ensures
        record(v, max, window) == recent(passed(v, max, window), window, v.last().at),
        record(v, max, window).len() <= max,
        forall|i: int|
            0 <= i < passed(v, max, window).len() ==> (#[trigger] passed(v, max, window)[i])
                <= v.last().at,
    decreases v.len(),
{
    let rest = v.drop_last();
    let now = v.last().at;
    let p = passed(rest, max, window);
    if rest.len() > 0 {
        assert(in_order(rest)) by {
            assert forall|i: int, j: int| 0 <= i <= j < rest.len() implies (#[trigger] rest[i]).at
                <= (#[trigger] rest[j]).at by {
                assert(v[i].at <= v[j].at);
            }
        }
        lemma_passed(rest, max, window);
        assert(v[v.len() - 2].at <= v[v.len() - 1].at);
        lemma_recent_twice(p, window, rest.last().at, now);
    } else {
        assert(p =~= Seq::empty());
    }
    let r = recent(record(rest, max, window), window, now);
    assert(r == recent(p, window, now));
    lemma_recent(record(rest, max, window), window, now);
    assert(p.push(now).drop_last() =~= p);
}

/// The limit holds at all times: of the requests that were let through up to the last visit, those
/// within the window that ends at `t`, then or later, are never more than the limit.
pub proof fn law_rolling_window(v: Seq<Visit>, max: nat, window: u128, t: u128)
    requires
        in_order(v),
        v.len() > 0,
        v.last().at <= t,
    ensures
        recent(passed(v, max, window), window, t).len() <= max,
{
    if window > 0 {
        lemma_passed(v, max, window);
        lemma_recent_twice(passed(v, max, window), window, v.last().at, t);
        lemma_recent(record(v, max, window), window, t);
    } else {
        let r = recent(passed(v, max, window), window, t);
        lemma_recent(passed(v, max, window), window, t);
        if r.len() > 0 {
            assert(elapsed(t, r[0]) < window);
        }
    }
}

/// Under the limit nobody waits.
pub proof fn law_under_the_limit(times: Seq<u128>, max: nat, window: u128, now: u128)
    requires
        times.len() < max,
    ensures
        checked(times, max, window, now).1 is None,
{
    lemma_recent(times, window, now);
}

proof fn lemma_fewer(times: Seq<u128>, window: u128, now: u128)
    requires
        times.len() > 0,
        elapsed(now, times[0]) >= window,
    ensures
        recent(times, window, now).len() < times.len(),
    decreases times.len(),
{
    if times.len() > 1 {
        lemma_fewer(times.drop_last(), window, now);
    } else {
        lemma_recent(times.drop_last(), window, now);
    }
}

/// Whoever waits as long as told is let through, unless others came first. (Under a limit of zero
/// nobody ever is.)
pub proof fn law_waiting_helps(times: Seq<u128>, max: nat, window: u128, now: u128)
    requires
        max > 0,
        times.len() <= max,
        checked(times, max, window, now).1 matches Some(w) && now + w <= u128::MAX,
        forall|i: int| 0 <= i < times.len() ==> (#[trigger] times[i]) <= now,
    ensures
        ({
            let (r, w) = checked(times, max, window, now);
            checked(r, max, window, (now + w->0) as u128).1 is None
        }),
{
    let (r, w) = checked(times, max, window, now);
    let later = (now + w->0) as u128;
    lemma_recent(times, window, now);
    lemma_recent_kept(times, window, now);
    assert(elapsed(later, r[0]) >= window);
    lemma_fewer(r, window, later);
}

proof fn lemma_recent_kept(times: Seq<u128>, window: u128, now: u128)
    requires
        forall|i: int| 0 <= i < times.len() ==> (#[trigger] times[i]) <= now,
    ensures
        forall|i: int|
            0 <= i < recent(times, window, now).len() ==> (#[trigger] recent(
                times,
                window,
                now,
            )[i]) <= now,
    decreases times.len(),
{
    if times.len() > 0 {
        let rest = times.drop_last();
        assert forall|i: int| 0 <= i < rest.len() implies (#[trigger] rest[i]) <= now by {
            assert(rest[i] == times[i]);
        }
        lemma_recent_kept(rest, window, now);
        let r = recent(times, window, now);
        assert forall|i: int| 0 <= i < r.len() implies (#[trigger] r[i]) <= now by {
            if i < recent(rest, window, now).len() {
                assert(r[i] == recent(rest, window, now)[i]);
            } else {
                assert(r[i] == times[times.len() - 1]);
            }
        }
    }
}

/// What is on record stays there for as long as the window, in order, and no longer.
pub proof fn law_recent(times: Seq<u128>, window: u128, now: u128)
    ensures
        recent(times, window, now) == times.filter(
            |t: u128|
                (if now >= t {
                    now - t
                } else {
                    0
                }) < window,
        ),
    decreases times.len(),
{
    reveal(Seq::filter);
    if times.len() > 0 {
        law_recent(times.drop_last(), window, now);
    }
    assert(recent(times, window, now) =~= times.filter(
        |t: u128|
            (if now >= t {
                now - t
            } else {
                0
            }) < window,
    ));
}

/// What a request meets: below the limit it goes on record and need not wait, else nothing goes on
/// record, and it waits until the oldest request that counts has left the window, and ten
/// milliseconds more.
pub proof fn law_checked(times: Seq<u128>, max: nat, window: u128, now: u128)
    requires
        forall|i: int| 0 <= i < times.len() ==> (#[trigger] times[i]) <= now,
    ensures
        ({
            let counts = times.filter(|t: u128| now - t < window);
            let (after, wait) = checked(times, max, window, now);
            &&& counts.len() < max ==> after == counts.push(now) && wait is None
            &&& counts.len() >= max ==> after == counts
            &&& counts.len() >= max && counts.len() > 0 ==> wait == Some(
                counts[0] + window - now + 10_000_000,
            )
            &&& counts.len() >= max && counts.len() == 0 ==> wait == Some(window + 10_000_000)
        }),
{
    lemma_counts(times, window, now);
    lemma_recent_kept(times, window, now);
}

proof fn lemma_counts(times: Seq<u128>, window: u128, now: u128)
    requires
        forall|i: int| 0 <= i < times.len() ==> (#[trigger] times[i]) <= now,
    ensures
        recent(times, window, now) == times.filter(|t: u128| now - t < window),
    decreases times.len(),
{
    reveal(Seq::filter);
    if times.len() > 0 {
        let rest = times.drop_last();
        assert forall|i: int| 0 <= i < rest.len() implies (#[trigger] rest[i]) <= now by {
            assert(rest[i] == times[i]);
        }
        assert(times[times.len() - 1] <= now);
        lemma_counts(rest, window, now);
    }
    assert(recent(times, window, now) =~= times.filter(|t: u128| now - t < window));
}

} // verus!
