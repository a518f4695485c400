use vstd::prelude::*;

verus! {

/// One change to a backend's connection counter: a connection assigned to
/// backend `i` (`Acquire(i)`) or a connection to it that ended (`Release(i)`).
#[derive(Debug, Clone, Copy, PartialEq, Eq, Structural)]
pub enum CounterEvent {
    Acquire(usize),
    Release(usize),
}

/// The backend a counter event is about.
pub open spec fn event_backend(e: CounterEvent) -> int {
    match e {
        CounterEvent::Acquire(i) => i as int,
        CounterEvent::Release(i) => i as int,
    }
}

/// The counters after one event.
pub open spec fn apply_event(counts: Seq<int>, e: CounterEvent) -> Seq<int> {
    match e {
        CounterEvent::Acquire(i) => counts.update(i as int, counts[i as int] + 1),
        CounterEvent::Release(i) => counts.update(i as int, counts[i as int] - 1),
    }
}

/// The counters after a whole history of events, applied in order.
pub open spec fn replay(counts: Seq<int>, events: Seq<CounterEvent>) -> Seq<int>
    decreases events.len(),
{
    if events.len() == 0 {
        counts
    } else {
        apply_event(replay(counts, events.drop_last()), events.last())
    }
}

/// The event assigns a connection to backend `i`.
pub open spec fn is_acquire_of(e: CounterEvent, i: int) -> bool {
    match e {
        CounterEvent::Acquire(j) => j as int == i,
        CounterEvent::Release(_) => false,
    }
}

/// The event ends a connection to backend `i`.
pub open spec fn is_release_of(e: CounterEvent, i: int) -> bool {
    match e {
        CounterEvent::Acquire(_) => false,
        CounterEvent::Release(j) => j as int == i,
    }
}

/// How many connections a history assigns to backend `i`.
pub open spec fn acquires_of(events: Seq<CounterEvent>, i: int) -> int
    decreases events.len(),
{
    if events.len() == 0 {
        0
    } else {
        acquires_of(events.drop_last(), i) + if is_acquire_of(events.last(), i) { 1int } else { 0int }
    }
}

/// How many connections to backend `i` a history ends.
pub open spec fn releases_of(events: Seq<CounterEvent>, i: int) -> int
    decreases events.len(),
{
    if events.len() == 0 {
        0
    } else {
        releases_of(events.drop_last(), i) + if is_release_of(events.last(), i) { 1int } else { 0int }
    }
}

/// Every event of the history names a backend of a pool with `n` backends.
pub open spec fn events_in_range(events: Seq<CounterEvent>, n: int) -> bool {
    forall|k: int| 0 <= k < events.len() ==> 0 <= #[trigger] event_backend(events[k]) < n
}

/// After any history, each counter has moved by the number of connections
/// assigned to its backend minus the number of those that ended.
pub proof fn lemma_replay_counts(counts: Seq<int>, events: Seq<CounterEvent>)
    requires
        events_in_range(events, counts.len() as int),
    ensures
        replay(counts, events).len() == counts.len(),
        forall|i: int| 0 <= i < counts.len() ==>
            #[trigger] replay(counts, events)[i] == counts[i] + acquires_of(events, i) - releases_of(events, i),
    decreases events.len(),
{
    if events.len() > 0 {
        let prefix = events.drop_last();
        assert forall|k: int| 0 <= k < prefix.len() implies 0 <= #[trigger] event_backend(prefix[k]) < counts.len() by {
            assert(prefix[k] == events[k]);
        }
        lemma_replay_counts(counts, prefix);
        assert(0 <= event_backend(events[events.len() - 1]) < counts.len());
        assert forall|i: int| 0 <= i < counts.len() implies
            #[trigger] replay(counts, events)[i] == counts[i] + acquires_of(events, i) - releases_of(events, i) by {
            let prev = replay(counts, prefix);
            assert(prev[i] == counts[i] + acquires_of(prefix, i) - releases_of(prefix, i));
        }
    }
}

/// Counter pairing: when every connection assigned to a backend has also
/// ended (for each backend, as many releases as acquires), every counter is
/// back where it started, whatever the interleaving of the events.
pub proof fn lemma_counter_pairing(counts: Seq<int>, events: Seq<CounterEvent>)
    requires
        events_in_range(events, counts.len() as int),
        forall|i: int| 0 <= i < counts.len() ==> #[trigger] acquires_of(events, i) == releases_of(events, i),
    ensures
        replay(counts, events) == counts,
{
    lemma_replay_counts(counts, events);
    assert(replay(counts, events) =~= counts);
}

/// Counters never go negative: starting from non-negative counters, a
/// history in which no connection ends before it was assigned (at every
/// prefix, no more releases than acquires for any backend) keeps every
/// counter non-negative at every step.
pub proof fn lemma_counts_nonnegative(counts: Seq<int>, events: Seq<CounterEvent>)
    requires
        events_in_range(events, counts.len() as int),
        forall|i: int| 0 <= i < counts.len() ==> 0 <= #[trigger] counts[i],
        forall|p: int, i: int| 0 <= p <= events.len() && 0 <= i < counts.len() ==>
            #[trigger] releases_of(events.take(p), i) <= #[trigger] acquires_of(events.take(p), i),
    ensures
        forall|p: int, i: int| 0 <= p <= events.len() && 0 <= i < counts.len() ==>
            0 <= #[trigger] replay(counts, events.take(p))[i],
{
    assert forall|p: int, i: int| 0 <= p <= events.len() && 0 <= i < counts.len() implies
        0 <= #[trigger] replay(counts, events.take(p))[i] by {
        let pre = events.take(p);
        assert forall|k: int| 0 <= k < pre.len() implies 0 <= #[trigger] event_backend(pre[k]) < counts.len() by {
            assert(pre[k] == events[k]);
        }
        lemma_replay_counts(counts, pre);
        assert(releases_of(pre, i) <= acquires_of(pre, i));
    }
}

} // verus!
