//! Laws of the peak over runs of operations, stated over the model that the
//! contracts of `PeakCounter` use.
use vstd::prelude::*;

use crate::accounting::clamp;
use crate::counter::{apply, fresh, peak_covers_balance, replay, Event, Tally};
use vstd::arithmetic::mul::lemma_mul_is_distributive_add;
use vstd::set_lib::{lemma_int_range, lemma_len_subset, set_int_range};

verus! {

/// True when the operation can only lower or keep the live byte count.
pub open spec fn frees_only(e: Event) -> bool {
    match e {
        Event::Alloc(_) => false,
        Event::Dealloc(_) => true,
        Event::Realloc(o, n) => n <= o,
    }
}

proof fn lemma_apply_keeps_cover(t: Tally, e: Event)
    requires
        peak_covers_balance(t),
    ensures
        peak_covers_balance(apply(t, e)),
        apply(t, e).peak >= t.peak,
        apply(t, e).peak == t.peak || apply(t, e).peak == clamp(apply(t, e).balance),
        frees_only(e) ==> apply(t, e).peak == t.peak,
{
}

proof fn lemma_replay_keeps_cover(t: Tally, events: Seq<Event>)
    requires
        peak_covers_balance(t),
    ensures
        peak_covers_balance(replay(t, events)),
    decreases events.len(),
{
    if events.len() > 0 {
        lemma_replay_keeps_cover(t, events.drop_last());
        lemma_apply_keeps_cover(replay(t, events.drop_last()), events.last());
    }
}

/// After every operation of any run that starts from a state whose peak
/// covers its balance (a new or reset tracker, for one), the peak is at least
/// the balance clamped at zero.
pub proof fn lemma_peak_covers_balance(start: Tally, events: Seq<Event>)
    requires
        peak_covers_balance(start),
    ensures
        forall|i: int|
            0 <= i <= events.len() ==> #[trigger] replay(start, events.take(i)).peak >= clamp(
                replay(start, events.take(i)).balance,
            ),
{
    assert forall|i: int| 0 <= i <= events.len() implies #[trigger] replay(
        start,
        events.take(i),
    ).peak >= clamp(replay(start, events.take(i)).balance) by {
        lemma_replay_keeps_cover(start, events.take(i));
    }
}

/// The peak never falls while no reset intervenes, and a run in which no
/// operation allocates leaves it exactly where it was.
pub proof fn lemma_peak_never_falls(start: Tally, events: Seq<Event>)
    ensures
        replay(start, events).peak >= start.peak,
        (forall|i: int| 0 <= i < events.len() ==> frees_only(#[trigger] events[i])) ==> replay(
            start,
            events,
        ).peak == start.peak,
    decreases events.len(),
{
    if events.len() > 0 {
        let rest = events.drop_last();
        lemma_peak_never_falls(start, rest);
        assert(replay(start, events) == apply(replay(start, rest), events.last()));
        if forall|i: int| 0 <= i < events.len() ==> frees_only(#[trigger] events[i]) {
            assert forall|i: int| 0 <= i < rest.len() implies frees_only(#[trigger] rest[i]) by {
                assert(rest[i] == events[i]);
            }
            assert(frees_only(events[events.len() - 1]));
        }
    }
}

/// From a new or reset tracker, the peak after any run is exactly the highest
/// clamped balance seen after any prefix of the run: it covers each of them
/// and equals one of them.
pub proof fn lemma_peak_is_highest_balance(events: Seq<Event>)
    ensures
        forall|i: int|
            0 <= i <= events.len() ==> replay(fresh(), events).peak >= clamp(
                #[trigger] replay(fresh(), events.take(i)).balance,
            ),
        exists|i: int|
            0 <= i <= events.len() && replay(fresh(), events).peak == clamp(
                #[trigger] replay(fresh(), events.take(i)).balance,
            ),
    decreases events.len(),
{
    let r = replay(fresh(), events);
    if events.len() == 0 {
        assert(events.take(0) =~= events);
    } else {
        let n = events.len() as int;
        let rest = events.drop_last();
        let p = replay(fresh(), rest);
        lemma_peak_is_highest_balance(rest);
        lemma_replay_keeps_cover(fresh(), rest);
        lemma_apply_keeps_cover(p, events.last());
        assert(events.take(n) =~= events);
        assert(rest.take(n - 1) =~= rest);
        assert forall|i: int| 0 <= i <= n - 1 implies #[trigger] events.take(i) == rest.take(i) by {
            assert(events.take(i) =~= rest.take(i));
        }
        assert forall|i: int| 0 <= i <= n implies r.peak >= clamp(
            #[trigger] replay(fresh(), events.take(i)).balance,
        ) by {
            if i < n {
                assert(events.take(i) == rest.take(i));
            }
        }
        let k = choose|k: int|
            0 <= k <= rest.len() && p.peak == clamp(#[trigger] replay(fresh(), rest.take(k)).balance);
        if r.peak == p.peak {
            assert(events.take(k) == rest.take(k));
        } else {
            assert(replay(fresh(), events.take(n)) == r);
        }
    }
}

/// A single allocation of `n` bytes on a new or reset tracker makes the peak
/// exactly `n`.
pub proof fn lemma_single_allocation(n: nat)
    ensures
        replay(fresh(), seq![Event::Alloc(n)]).peak == n,
        replay(fresh(), seq![Event::Alloc(n)]).balance == n,
{
    let events = seq![Event::Alloc(n)];
    assert(events.drop_last() =~= Seq::<Event>::empty());
    assert(replay(fresh(), events.drop_last()) == fresh());
    assert(events.last() == Event::Alloc(n));
}

/// One step of one thread in an interleaved run: the thread allocates its
/// block, or frees it.
pub struct Step {
    pub thread: int,
    pub allocates: bool,
}

/// The operation that a step issues when every block holds `bytes` bytes.
pub open spec fn step_event(s: Step, bytes: nat) -> Event {
    if s.allocates {
        Event::Alloc(bytes)
    } else {
        Event::Dealloc(bytes)
    }
}

/// The operations that an interleaving of steps issues, in order.
pub open spec fn issued(steps: Seq<Step>, bytes: nat) -> Seq<Event> {
    Seq::new(steps.len(), |i: int| step_event(steps[i], bytes))
}

/// An interleaving in which each of `threads` threads allocates one block at
/// most once and frees it at most once, after allocating it.
pub open spec fn alloc_then_free(steps: Seq<Step>, threads: nat) -> bool {
    &&& forall|i: int| 0 <= i < steps.len() ==> 0 <= #[trigger] steps[i].thread < threads
    &&& forall|i: int, j: int|
        0 <= i < steps.len() && 0 <= j < steps.len() && i != j && #[trigger] steps[i].thread
            == #[trigger] steps[j].thread ==> steps[i].allocates != steps[j].allocates
    &&& forall|i: int|
        0 <= i < steps.len() && !(#[trigger] steps[i]).allocates ==> exists|j: int|
            0 <= j < i && (#[trigger] steps[j]).allocates && steps[j].thread == steps[i].thread
}

/// The number of allocating steps.
pub open spec fn count_allocs(steps: Seq<Step>) -> nat
    decreases steps.len(),
{
    if steps.len() == 0 {
        0
    } else {
        count_allocs(steps.drop_last()) + if steps.last().allocates {
            1nat
        } else {
            0nat
        }
    }
}

/// The threads that have an allocating step.
pub open spec fn alloc_threads(steps: Seq<Step>) -> Set<int>
    decreases steps.len(),
{
    if steps.len() == 0 {
        Set::empty()
    } else if steps.last().allocates {
        alloc_threads(steps.drop_last()).insert(steps.last().thread)
    } else {
        alloc_threads(steps.drop_last())
    }
}

proof fn lemma_issued_prefix(steps: Seq<Step>, bytes: nat, k: int)
    requires
        0 <= k <= steps.len(),
    ensures
        issued(steps, bytes).take(k) == issued(steps.take(k), bytes),
{
    assert(issued(steps, bytes).take(k) =~= issued(steps.take(k), bytes));
}

proof fn lemma_prefix_alloc_then_free(steps: Seq<Step>, threads: nat, k: int)
    requires
        alloc_then_free(steps, threads),
        0 <= k <= steps.len(),
    ensures
        alloc_then_free(steps.take(k), threads),
{
    let prefix = steps.take(k);
    assert forall|i: int| 0 <= i < prefix.len() implies 0 <= #[trigger] prefix[i].thread
        < threads by {
        assert(prefix[i] == steps[i]);
    }
    assert forall|i: int, j: int|
        0 <= i < prefix.len() && 0 <= j < prefix.len() && i != j && #[trigger] prefix[i].thread
            == #[trigger] prefix[j].thread implies prefix[i].allocates != prefix[j].allocates by {
        assert(prefix[i] == steps[i] && prefix[j] == steps[j]);
    }
    assert forall|i: int| 0 <= i < prefix.len() && !(#[trigger] prefix[i]).allocates implies exists|
        j: int,
    | 0 <= j < i && (#[trigger] prefix[j]).allocates && prefix[j].thread == prefix[i].thread by {
        assert(prefix[i] == steps[i]);
        let j = choose|j: int|
            0 <= j < i && (#[trigger] steps[j]).allocates && steps[j].thread == steps[i].thread;
        assert(prefix[j] == steps[j]);
    }
}

proof fn lemma_balance_bounded_by_allocs(steps: Seq<Step>, bytes: nat)
    ensures
        replay(fresh(), issued(steps, bytes)).balance <= bytes * count_allocs(steps),
    decreases steps.len(),
{
    if steps.len() > 0 {
        let rest = steps.drop_last();
        let events = issued(steps, bytes);
        lemma_balance_bounded_by_allocs(rest, bytes);
        assert(events.drop_last() =~= issued(rest, bytes));
        lemma_mul_is_distributive_add(bytes as int, count_allocs(rest) as int, 1);
    }
}

proof fn lemma_alloc_threads_counted(steps: Seq<Step>, threads: nat)
    requires
        alloc_then_free(steps, threads),
    ensures
        alloc_threads(steps).finite(),
        alloc_threads(steps).len() == count_allocs(steps),
        alloc_threads(steps).subset_of(set_int_range(0, threads as int)),
        forall|t: int|
            #[trigger] alloc_threads(steps).contains(t) ==> exists|i: int|
                0 <= i < steps.len() && steps[i].allocates && steps[i].thread == t,
    decreases steps.len(),
{
    if steps.len() > 0 {
        let n = steps.len() as int;
        let rest = steps.drop_last();
        lemma_prefix_alloc_then_free(steps, threads, n - 1);
        assert(steps.take(n - 1) =~= rest);
        lemma_alloc_threads_counted(rest, threads);
        let last = steps[n - 1];
        assert(0 <= last.thread < threads);
        if last.allocates {
            if alloc_threads(rest).contains(last.thread) {
                let i = choose|i: int|
                    0 <= i < rest.len() && rest[i].allocates && rest[i].thread == last.thread;
                assert(steps[i] == rest[i]);
                assert(steps[i].thread == steps[n - 1].thread);
            }
        }
        assert forall|t: int| #[trigger] alloc_threads(steps).contains(t) implies exists|i: int|
            0 <= i < steps.len() && steps[i].allocates && steps[i].thread == t by {
            if alloc_threads(rest).contains(t) {
                let i = choose|i: int|
                    0 <= i < rest.len() && rest[i].allocates && rest[i].thread == t;
                assert(steps[i] == rest[i]);
            } else {
                assert(steps[n - 1].thread == t);
            }
        }
    }
}

/// When each of `threads` threads allocates a block of `bytes` and later frees
/// it, in any interleaving, the peak reported at the end covers the live
/// bytes at every instant of the run, and never exceeds `threads * bytes`.
///
/// Each operation is taken as one step, in the order that the sequentially
/// consistent counters give the operations.
pub proof fn lemma_interleaved_threads(steps: Seq<Step>, threads: nat, bytes: nat)
    requires
        alloc_then_free(steps, threads),
    ensures
        forall|i: int|
            0 <= i <= steps.len() ==> replay(fresh(), issued(steps, bytes)).peak >= (#[trigger] replay(
                fresh(),
                issued(steps, bytes).take(i),
            )).balance,
        replay(fresh(), issued(steps, bytes)).peak <= threads * bytes,
{
    let events = issued(steps, bytes);
    let r = replay(fresh(), events);
    lemma_peak_is_highest_balance(events);
    assert forall|i: int| 0 <= i <= steps.len() implies r.peak >= (#[trigger] replay(
        fresh(),
        events.take(i),
    )).balance by {
        assert(r.peak >= clamp(replay(fresh(), events.take(i)).balance));
    }
    let k = choose|k: int|
        0 <= k <= events.len() && r.peak == clamp(#[trigger] replay(fresh(), events.take(k)).balance);
    let prefix = steps.take(k);
    lemma_issued_prefix(steps, bytes, k);
    lemma_balance_bounded_by_allocs(prefix, bytes);
    lemma_prefix_alloc_then_free(steps, threads, k);
    lemma_alloc_threads_counted(prefix, threads);
    lemma_int_range(0, threads as int);
    lemma_len_subset(alloc_threads(prefix), set_int_range(0, threads as int));
    assert(bytes * count_allocs(prefix) <= bytes * threads) by (nonlinear_arith)
        requires
            count_allocs(prefix) <= threads,
    ;
    assert(bytes * count_allocs(prefix) >= 0) by (nonlinear_arith);
}

} // verus!
