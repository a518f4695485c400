use vstd::prelude::*;

verus! {

/// One of the two byte streams of a relayed connection.
#[derive(Debug, Clone, Copy, PartialEq, Eq, Structural)]
pub enum Direction {
    ClientToBackend,
    BackendToClient,
}

/// One end of a relayed connection; `ShutdownWrite(side)` closes the write
/// half towards that end.
#[derive(Debug, Clone, Copy, PartialEq, Eq, Structural)]
pub enum Side {
    Client,
    Backend,
}

/// Per-connection failures. Both are handled at the connection: they are
/// logged and the connection is torn down.
#[derive(Debug, Clone, Copy, PartialEq, Eq, Structural)]
pub enum RelayError {
    /// The backend refused or dropped the relay's own connect, although it
    /// passed its probe.
    BackendUnreachable,
    /// A read, write or shutdown failed while bytes were being relayed.
    RelayIo,
}

/// How a relay ended.
#[derive(Debug, Clone, Copy, PartialEq, Eq, Structural)]
pub enum RelayOutcome {
    Success,
    Failure(RelayError),
}

/// Where a relayed connection stands.
#[derive(Debug, Clone, Copy, PartialEq, Eq, Structural)]
pub enum RelayState {
    /// Accepted and assigned to a backend; nothing done yet.
    Idle,
    /// Waiting for the connect to the backend.
    BackendConnecting,
    /// Both directions are being copied.
    Relaying,
    /// A direction reached end of stream; the write half of its
    /// destination is being shut down. The direction named is still open.
    HalfClosing(Direction),
    /// One direction is over and its destination was shut down; the
    /// direction named is still being copied.
    HalfClosed(Direction),
    /// Both directions are over; the last write half is being shut down.
    Closing,
    /// A failure occurred; both sockets are being torn down.
    Failed(RelayError),
    /// Terminal.
    Closed(RelayOutcome),
}

/// What happened since the last step, reported by whoever drives the sockets.
#[derive(Debug, Clone, Copy, PartialEq, Eq, Structural)]
pub enum RelayEvent {
    Start,
    BackendConnected,
    BackendConnectFailed,
    /// A copy ended: `true` at end of stream, `false` on an I/O error.
    CopyFinished(Direction, bool),
    /// A shutdown of a write half ended: `true` on success.
    ShutdownFinished(bool),
    /// Both sockets of a failed relay are closed.
    TornDown,
}

/// What the driver is to do next.
#[derive(Debug, Clone, Copy, PartialEq, Eq, Structural)]
pub enum RelayAction {
    ConnectBackend,
    /// Start copying both directions concurrently.
    StartCopies,
    /// Shut down the write half towards this side.
    ShutdownWrite(Side),
    /// Keep copying this direction until it ends.
    AwaitCopy(Direction),
    /// Close both sockets, relaying nothing more.
    TearDown,
    /// The relay is over: decrement the backend's counter and report the outcome.
    ReleaseBackend(RelayOutcome),
    /// The event does not apply in this state.
    Ignore,
}

/// The other direction.
pub open spec fn opposite(d: Direction) -> Direction {
    match d {
        Direction::ClientToBackend => Direction::BackendToClient,
        Direction::BackendToClient => Direction::ClientToBackend,
    }
}

/// The side a direction writes to.
pub open spec fn destination(d: Direction) -> Side {
    match d {
        Direction::ClientToBackend => Side::Backend,
        Direction::BackendToClient => Side::Client,
    }
}

/// The transition table of a relayed connection.
pub open spec fn next(s: RelayState, e: RelayEvent) -> (RelayState, RelayAction) {
    match (s, e) {
        (RelayState::Idle, RelayEvent::Start) => (RelayState::BackendConnecting, RelayAction::ConnectBackend),
        (RelayState::BackendConnecting, RelayEvent::BackendConnected) => (RelayState::Relaying, RelayAction::StartCopies),
        (RelayState::BackendConnecting, RelayEvent::BackendConnectFailed) =>
            (RelayState::Failed(RelayError::BackendUnreachable), RelayAction::TearDown),
        (RelayState::Relaying, RelayEvent::CopyFinished(d, ok)) =>
            if ok {
                (RelayState::HalfClosing(opposite(d)), RelayAction::ShutdownWrite(destination(d)))
            } else {
                (RelayState::Failed(RelayError::RelayIo), RelayAction::TearDown)
            },
        (RelayState::HalfClosing(open), RelayEvent::ShutdownFinished(ok)) =>
            if ok {
                (RelayState::HalfClosed(open), RelayAction::AwaitCopy(open))
            } else {
                (RelayState::Failed(RelayError::RelayIo), RelayAction::TearDown)
            },
        (RelayState::HalfClosed(open), RelayEvent::CopyFinished(d, ok)) =>
            if d != open {
                (s, RelayAction::Ignore)
            } else if ok {
                (RelayState::Closing, RelayAction::ShutdownWrite(destination(d)))
            } else {
                (RelayState::Failed(RelayError::RelayIo), RelayAction::TearDown)
            },
        (RelayState::Closing, RelayEvent::ShutdownFinished(ok)) =>
            if ok {
                (RelayState::Closed(RelayOutcome::Success), RelayAction::ReleaseBackend(RelayOutcome::Success))
            } else {
                (RelayState::Failed(RelayError::RelayIo), RelayAction::TearDown)
            },
        (RelayState::Failed(err), RelayEvent::TornDown) =>
            (RelayState::Closed(RelayOutcome::Failure(err)), RelayAction::ReleaseBackend(RelayOutcome::Failure(err))),
        _ => (s, RelayAction::Ignore),
    }
}

impl Direction {
    /// The other direction.
    pub fn opposite(self) -> (r: Direction)
        ensures
            r == opposite(self),
    {
        match self {
            Direction::ClientToBackend => Direction::BackendToClient,
            Direction::BackendToClient => Direction::ClientToBackend,
        }
    }

    /// The side this direction writes to.
    pub fn destination(self) -> (r: Side)
        ensures
            r == destination(self),
    {
        match self {
            Direction::ClientToBackend => Side::Backend,
            Direction::BackendToClient => Side::Client,
        }
    }
}

impl RelayState {
    /// The state of a connection that was just assigned a backend.
    pub fn new() -> (r: RelayState)
        ensures
            r == RelayState::Idle,
    {
        RelayState::Idle
    }

    /// The relay has ended, one way or the other.
    pub fn is_closed(&self) -> (r: bool)
        ensures
            r <==> self is Closed,
    {
        match self {
            RelayState::Closed(_) => true,
            _ => false,
        }
    }

    /// Takes one event and gives the next state and what to do.
    pub fn step(self, event: RelayEvent) -> (r: (RelayState, RelayAction))
        ensures
            r == next(self, event),
    {
        match (self, event) {
            (RelayState::Idle, RelayEvent::Start) => (RelayState::BackendConnecting, RelayAction::ConnectBackend),
            (RelayState::BackendConnecting, RelayEvent::BackendConnected) => (RelayState::Relaying, RelayAction::StartCopies),
            (RelayState::BackendConnecting, RelayEvent::BackendConnectFailed) =>
                (RelayState::Failed(RelayError::BackendUnreachable), RelayAction::TearDown),
            (RelayState::Relaying, RelayEvent::CopyFinished(d, ok)) => {
                if ok {
                    (RelayState::HalfClosing(d.opposite()), RelayAction::ShutdownWrite(d.destination()))
                } else {
                    (RelayState::Failed(RelayError::RelayIo), RelayAction::TearDown)
                }
            },
            (RelayState::HalfClosing(open), RelayEvent::ShutdownFinished(ok)) => {
                if ok {
                    (RelayState::HalfClosed(open), RelayAction::AwaitCopy(open))
                } else {
                    (RelayState::Failed(RelayError::RelayIo), RelayAction::TearDown)
                }
            },
            (RelayState::HalfClosed(open), RelayEvent::CopyFinished(d, ok)) => {
                if d != open {
                    (self, RelayAction::Ignore)
                } else if ok {
                    (RelayState::Closing, RelayAction::ShutdownWrite(d.destination()))
                } else {
                    (RelayState::Failed(RelayError::RelayIo), RelayAction::TearDown)
                }
            },
            (RelayState::Closing, RelayEvent::ShutdownFinished(ok)) => {
                if ok {
                    (RelayState::Closed(RelayOutcome::Success), RelayAction::ReleaseBackend(RelayOutcome::Success))
                } else {
                    (RelayState::Failed(RelayError::RelayIo), RelayAction::TearDown)
                }
            },
            (RelayState::Failed(err), RelayEvent::TornDown) =>
                (RelayState::Closed(RelayOutcome::Failure(err)), RelayAction::ReleaseBackend(RelayOutcome::Failure(err))),
            _ => (self, RelayAction::Ignore),
        }
    }
}


/// The state reached and the actions issued when the events are taken in order.
pub open spec fn run(s: RelayState, events: Seq<RelayEvent>) -> (RelayState, Seq<RelayAction>)
    decreases events.len(),
{
    if events.len() == 0 {
        (s, Seq::empty())
    } else {
        let (m, acts) = run(s, events.drop_last());
        let (f, a) = next(m, events.last());
        (f, acts.push(a))
    }
}

/// How many times the actions release the backend's counter.
pub open spec fn releases(actions: Seq<RelayAction>) -> int
    decreases actions.len(),
{
    if actions.len() == 0 {
        0
    } else {
        releases(actions.drop_last()) + if actions.last() is ReleaseBackend { 1int } else { 0int }
    }
}

/// 1 for a relay that has ended, 0 otherwise.
pub open spec fn closed_count(s: RelayState) -> int {
    if s is Closed { 1 } else { 0 }
}

proof fn lemma_run_releases(s: RelayState, events: Seq<RelayEvent>)
    ensures
        releases(run(s, events).1) == closed_count(run(s, events).0) - closed_count(s),
        run(s, events).1.len() == events.len(),
    decreases events.len(),
{
    if events.len() > 0 {
        lemma_run_releases(s, events.drop_last());
        let acts = run(s, events).1;
        assert(acts.drop_last() == run(s, events.drop_last()).1);
    }
}

/// Whatever the events and their order, a connection's counter is released
/// exactly once if the relay reached its end, and never otherwise; in
/// particular never twice. Paired with the single acquire made when the
/// connection was assigned, the counter moves back by exactly one.
pub proof fn lemma_release_exactly_once(events: Seq<RelayEvent>)
    ensures
        releases(run(RelayState::Idle, events).1) == if run(RelayState::Idle, events).0 is Closed { 1int } else { 0int },
{
    lemma_run_releases(RelayState::Idle, events);
}

/// The event reports the end of a copy in direction `d`.
pub open spec fn ends_copy(e: RelayEvent, d: Direction) -> bool {
    match e {
        RelayEvent::CopyFinished(x, _) => x == d,
        _ => false,
    }
}

/// Half-close propagation: when one direction reaches end of stream first,
/// the write half of its destination is shut down and the other direction
/// is kept open; once that shutdown succeeded, nothing tears the connection
/// down or releases it until the open direction itself has ended, so every
/// byte it still carries is delivered.
pub proof fn lemma_half_close(d: Direction, events: Seq<RelayEvent>)
    requires
        forall|k: int| 0 <= k < events.len() ==> !ends_copy(#[trigger] events[k], opposite(d)),
    ensures
        next(RelayState::Relaying, RelayEvent::CopyFinished(d, true))
            == (RelayState::HalfClosing(opposite(d)), RelayAction::ShutdownWrite(destination(d))),
        next(RelayState::HalfClosing(opposite(d)), RelayEvent::ShutdownFinished(true))
            == (RelayState::HalfClosed(opposite(d)), RelayAction::AwaitCopy(opposite(d))),
        run(RelayState::HalfClosed(opposite(d)), events).0 == RelayState::HalfClosed(opposite(d)),
        forall|k: int| 0 <= k < events.len() ==> #[trigger] run(RelayState::HalfClosed(opposite(d)), events).1[k] == RelayAction::Ignore,
    decreases events.len(),
{
    let s = RelayState::HalfClosed(opposite(d));
    if events.len() > 0 {
        let prefix = events.drop_last();
        assert forall|k: int| 0 <= k < prefix.len() implies !ends_copy(#[trigger] prefix[k], opposite(d)) by {
            assert(prefix[k] == events[k]);
        }
        lemma_half_close(d, prefix);
        lemma_run_releases(s, prefix);
        lemma_run_releases(s, events);
        assert(!ends_copy(events[events.len() - 1], opposite(d)));
        let acts = run(s, events).1;
        assert forall|k: int| 0 <= k < events.len() implies #[trigger] acts[k] == RelayAction::Ignore by {
            if k < prefix.len() {
                assert(acts[k] == run(s, prefix).1[k]);
            }
        }
    }
}

/// An action that moves bytes or touches a write half.
pub open spec fn relays_bytes(a: RelayAction) -> bool {
    a is StartCopies || a is AwaitCopy || a is ShutdownWrite
}

/// A relay whose backend connect never succeeded relays no byte: from the
/// start, as long as no `BackendConnected` arrives, no action copies or
/// shuts down a stream, and a failed connect ends in `BackendUnreachable`.
pub proof fn lemma_no_relay_without_backend(events: Seq<RelayEvent>)
    requires
        forall|k: int| 0 <= k < events.len() ==> !(#[trigger] events[k] is BackendConnected),
    ensures
        forall|k: int| 0 <= k < events.len() ==> !relays_bytes(#[trigger] run(RelayState::Idle, events).1[k]),
        run(RelayState::Idle, events).0 is Idle
            || run(RelayState::Idle, events).0 is BackendConnecting
            || run(RelayState::Idle, events).0 == RelayState::Failed(RelayError::BackendUnreachable)
            || run(RelayState::Idle, events).0 == RelayState::Closed(RelayOutcome::Failure(RelayError::BackendUnreachable)),
    decreases events.len(),
{
    let s = RelayState::Idle;
    if events.len() > 0 {
        let prefix = events.drop_last();
        assert forall|k: int| 0 <= k < prefix.len() implies !(#[trigger] prefix[k] is BackendConnected) by {
            assert(prefix[k] == events[k]);
        }
        lemma_no_relay_without_backend(prefix);
        lemma_run_releases(s, prefix);
        lemma_run_releases(s, events);
        assert(!(events[events.len() - 1] is BackendConnected));
        let acts = run(s, events).1;
        assert forall|k: int| 0 <= k < events.len() implies !relays_bytes(#[trigger] acts[k]) by {
            if k < prefix.len() {
                assert(acts[k] == run(s, prefix).1[k]);
            }
        }
    }
}

} // verus!
