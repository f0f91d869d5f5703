use vstd::prelude::*;

use std::rc::Rc;
use std::time::{Duration, Instant};

verus! {

#[verifier::external_type_specification]
#[verifier::external_body]
pub struct ExInstant(std::time::Instant);

/// `Instant::now`: the current time. Nothing is stated of it: it is the
/// clock's reading.
#[verifier::external_body]
fn instant_now() -> Instant {
    Instant::now()
}

/// `Instant::elapsed`: the time since `base`. Nothing is stated of it: it is
/// a clock reading.
#[verifier::external_body]
fn instant_elapsed(base: &Instant) -> Duration {
    base.elapsed()
}

/// `Duration::as_nanos`: the whole nanoseconds in `d`. Durations are opaque
/// here, so nothing is stated of the result; it is used on clock readings
/// only.
#[verifier::external_body]
fn duration_as_nanos(d: &Duration) -> u128 {
    d.as_nanos()
}

/// `Rc::ptr_eq`: the two point to the same allocation, so they hold the same
/// value. (Equal values in different allocations give `false`, which is not
/// stated.)
#[verifier::external_body]
fn rc_ptr_eq<T>(a: &Rc<T>, b: &Rc<T>) -> (r: bool)
    ensures
        r ==> a == b,
{
    Rc::ptr_eq(a, b)
}

/// the value that `r` points to
pub open spec fn rc_value<A>(r: Rc<A>) -> A {
    *r
}

/// a value queued at `stamp` is still to be kept at `now`, both in
/// nanoseconds: less than `delay` has passed since (no time has passed if the
/// clock reads earlier than the stamp)
pub open spec fn young(now: u128, stamp: u128, delay: u128) -> bool {
    (if now >= stamp { now - stamp } else { 0 }) < delay
}

/// the entries of `entries`, each a value and the time it was queued at, that
/// are still to be kept at `now`, in order
pub open spec fn kept_entries<A>(entries: Seq<(A, u128)>, now: u128, delay: u128) -> Seq<(A, u128)>
    decreases entries.len(),
{
    if entries.len() == 0 {
        entries
    } else {
        let rest = kept_entries(entries.drop_last(), now, delay);
        if young(now, entries.last().1, delay) {
            rest.push(entries.last())
        } else {
            rest
        }
    }
}

/// `queued` is `held` with the value `v` queued at `now`: an entry of the same
/// value has its time set to `now`, or the value is added at the end
pub open spec fn requeued<A>(held: Seq<(A, u128)>, v: A, now: u128, queued: Seq<(A, u128)>) -> bool {
    ||| queued == held.push((v, now))
    ||| exists|k: int| 0 <= k < held.len() && held[k].0 == v && queued == held.update(k, (v, now))
}

/// the entries `after` are what a delayed dropper with the delay `delay` holds
/// after `v` is queued at `now` while it held `held`
pub open spec fn dropped_later<A>(held: Seq<(A, u128)>, v: A, now: u128, delay: u128, after: Seq<(A, u128)>) -> bool {
    exists|queued: Seq<(A, u128)>|
        #[trigger] requeued(held, v, now, queued) && after == kept_entries(queued, now, delay)
}

/// an entry is kept exactly when it is one of `entries` and still young
proof fn lemma_kept_entries<A>(entries: Seq<(A, u128)>, now: u128, delay: u128, e: (A, u128))
    ensures
        kept_entries(entries, now, delay).contains(e) <==> (entries.contains(e) && young(
            now,
            e.1,
            delay,
        )),
    decreases entries.len(),
{
    if entries.len() > 0 {
        let rest = kept_entries(entries.drop_last(), now, delay);
        lemma_kept_entries(entries.drop_last(), now, delay, e);
        if entries.drop_last().contains(e) {
            let j = choose|j: int| 0 <= j < entries.drop_last().len() && entries.drop_last()[j] == e;
            assert(entries[j] == e);
        }
        if entries.contains(e) {
            let j = choose|j: int| 0 <= j < entries.len() && entries[j] == e;
            if j < entries.len() - 1 {
                assert(entries.drop_last()[j] == e);
            }
        }
        if young(now, entries.last().1, delay) {
            if rest.contains(e) {
                let j = choose|j: int| 0 <= j < rest.len() && rest[j] == e;
                assert(rest.push(entries.last())[j] == e);
            }
            if rest.push(entries.last()).contains(e) {
                let j = choose|j: int| 0 <= j < rest.len() + 1 && rest.push(entries.last())[j] == e;
                if j < rest.len() {
                    assert(rest[j] == e);
                }
            }
            assert(rest.push(entries.last())[rest.len() as int] == entries.last());
        }
    }
}

/// Law: a delayed dropper keeps exactly the entries queued less than its delay
/// ago: after a value is queued, an entry is held exactly when it was held
/// before (or is the value just queued, at the time of queueing) and is still
/// young. So with a delay above zero the value just queued is held, and with
/// a zero delay nothing is held.
pub proof fn lemma_dropper_keeps_young<A>(
    held: Seq<(A, u128)>,
    v: A,
    now: u128,
    delay: u128,
    after: Seq<(A, u128)>,
    e: (A, u128),
)
    requires
        dropped_later(held, v, now, delay, after),
    ensures
        after.contains(e) ==> young(now, e.1, delay) && (held.contains(e) || e == (v, now)),
        delay > 0 ==> after.contains((v, now)),
        delay == 0 ==> after.len() == 0,
{
    let queued = choose|queued: Seq<(A, u128)>|
        #[trigger] requeued(held, v, now, queued) && after == kept_entries(queued, now, delay);
    lemma_kept_entries(queued, now, delay, e);
    lemma_kept_entries(queued, now, delay, (v, now));
    if queued == held.push((v, now)) {
        assert(queued[held.len() as int] == (v, now));
        if queued.contains(e) {
            let j = choose|j: int| 0 <= j < queued.len() && queued[j] == e;
            if j < held.len() {
                assert(held[j] == e);
            }
        }
    } else {
        let k = choose|k: int| 0 <= k < held.len() && held[k].0 == v && queued == held.update(k, (v, now));
        assert(queued[k] == (v, now));
        if queued.contains(e) {
            let j = choose|j: int| 0 <= j < queued.len() && queued[j] == e;
            if j != k {
                assert(held[j] == e);
            }
        }
    }
    if delay == 0 && after.len() > 0 {
        lemma_kept_entries(queued, now, delay, after[0]);
        assert(after.contains(after[0]));
    }
}

/// the entries of `v`, each a value and the time it was queued at
pub open spec fn entries_view<T>(v: Seq<(Rc<T>, u128)>) -> Seq<(T, u128)> {
    v.map_values(|p: (Rc<T>, u128)| (*p.0, p.1))
}

/// The entries of `entries` that are still to be kept at `now`, with the delay
/// `delay`, all in nanoseconds; the others are dropped.
pub fn keep_young<T>(entries: Vec<(Rc<T>, u128)>, now: u128, delay: u128) -> (r: Vec<(Rc<T>, u128)>)
    ensures
        entries_view(r@) == kept_entries(entries_view(entries@), now, delay),
{
    let ghost all = entries_view(entries@);
    let n = entries.len();
    let mut kept: Vec<(Rc<T>, u128)> = Vec::new();
    let mut j: usize = 0;
    while j < n
        invariant
            n == entries@.len(),
            j <= n,
            all == entries_view(entries@),
            entries_view(kept@) == kept_entries(all.take(j as int), now, delay),
        decreases n - j,
    {
        assert(all.take(j + 1).drop_last() == all.take(j as int));
        assert(all.take(j + 1).last() == all[j as int]);
        let (rc, at) = &entries[j];
        let age = if now >= *at { now - *at } else { 0 };
        let ghost kept_before = entries_view(kept@);
        if age < delay {
            kept.push((rc.clone(), *at));
            assert(entries_view(kept@) == kept_before.push(all[j as int]));
        }
        j = j + 1;
    }
    assert(all.take(n as int) == all);
    kept
}

/// delay dropping something until later. simple. single threaded. no real time
/// guarantees. T must never panic when dropped
pub struct RcDelayedDropper<T> {
    /// the minimum amount of time, in nanoseconds, that will be delayed before
    /// something which was added to the queue will be dropped. there is no
    /// maximum amount of time - durations are only checked when elements are
    /// queued. duration will be reset if the same element is queued as before
    pub duration: u128,
    /// the time the dropper was made at: times are kept as the nanoseconds
    /// since then
    base: Instant,
    /// each queued value, with the time it was queued at
    vals: Vec<(Rc<T>, u128)>,
}

impl<T> RcDelayedDropper<T> {
    /// the least time, in nanoseconds, that a queued value is kept alive
    pub closed spec fn delay(&self) -> u128 {
        self.duration
    }

    /// the values kept alive, each with the time it was queued at, in
    /// nanoseconds since the dropper was made
    pub closed spec fn held(&self) -> Seq<(T, u128)> {
        entries_view(self.vals@)
    }

    /// the least time, in nanoseconds, that a queued value is kept alive: the
    /// `duration` field, read where its value is needed in a specification
    pub fn delay_nanos(&self) -> (r: u128)
        ensures
            r == self.delay(),
    {
        self.duration
    }

    /// the number of values kept alive
    pub fn held_len(&self) -> (r: usize)
        ensures
            r == self.held().len(),
    {
        self.vals.len()
    }

    /// a dropper that keeps what is queued for at least `duration`
    /// nanoseconds
    pub fn new(duration: u128) -> (r: Self)
        ensures
            r.delay() == duration,
            r.held() == Seq::<(T, u128)>::empty(),
    {
        Self { duration, base: instant_now(), vals: Vec::new() }
    }

    /// queue `t`, or refresh its time if it is queued already, then drop what
    /// was queued at least `duration` ago. The clock is read once, at `now`:
    /// the entries held afterwards are those of `dropped_later`.
    pub fn drop_later(&mut self, t: Rc<T>)
        ensures
            final(self).delay() == old(self).delay(),
            exists|now: u128|
                #[trigger] dropped_later(
                    old(self).held(),
                    rc_value(t),
                    now,
                    old(self).delay(),
                    final(self).held(),
                ),
    {
        let elapsed = instant_elapsed(&self.base);
        let now = duration_as_nanos(&elapsed);
        let ghost before = self.held();
        let ghost v: T = rc_value(t);
        let len = self.vals.len();
        let mut queued: Vec<(Rc<T>, u128)> = Vec::new();
        let mut found: Option<usize> = None;
        let mut i: usize = 0;
        while i < len
            invariant
                len == self.vals@.len(),
                i <= len,
                before == entries_view(self.vals@),
                queued@.len() == i,
                v == rc_value(t),
                match found {
                    None => entries_view(queued@) == before.take(i as int),
                    Some(k) => k < i && before[k as int].0 == v && entries_view(queued@)
                        == before.take(i as int).update(k as int, (v, now)),
                },
            decreases len - i,
        {
            let (rc, at) = &self.vals[i];
            let ghost q0 = entries_view(queued@);
            assert(before.take(i + 1) == before.take(i as int).push(before[i as int]));
            if found.is_none() && rc_ptr_eq(rc, &t) {
                found = Some(i);
                queued.push((rc.clone(), now));
                assert(entries_view(queued@) == q0.push((v, now)));
            } else {
                queued.push((rc.clone(), *at));
                assert(entries_view(queued@) == q0.push(before[i as int]));
            }
            i = i + 1;
        }
        assert(before.take(len as int) == before);
        if found.is_none() {
            let ghost q0 = entries_view(queued@);
            queued.push((t, now));
            assert(entries_view(queued@) == q0.push((v, now)));
        }
        let ghost q = entries_view(queued@);
        assert(requeued(before, v, now, q));
        self.vals = keep_young(queued, now, self.duration);
        assert(before == old(self).held());
        assert(self.duration == old(self).delay());
        assert(dropped_later(old(self).held(), rc_value(t), now, old(self).delay(), self.held()));
    }
}

} // verus!
