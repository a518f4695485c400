use least_conn_lb::{
    BackendPool, Direction, RelayAction, RelayError, RelayEvent, RelayOutcome, RelayState, Side,
};

fn drive(events: &[RelayEvent]) -> (RelayState, Vec<RelayAction>) {
    let mut s = RelayState::new();
    let mut actions = Vec::new();
    for e in events {
        let (n, a) = s.step(*e);
        s = n;
        actions.push(a);
    }
    (s, actions)
}

#[test]
fn directions_and_destinations() {
    assert_eq!(Direction::ClientToBackend.opposite(), Direction::BackendToClient);
    assert_eq!(Direction::BackendToClient.opposite(), Direction::ClientToBackend);
    assert_eq!(Direction::ClientToBackend.destination(), Side::Backend);
    assert_eq!(Direction::BackendToClient.destination(), Side::Client);
}

#[test]
fn ping_pong_relay_succeeds_and_releases_once() {
    let mut p = BackendPool::new(vec!["echo:7".to_string()]).unwrap();
    let chosen = p.dispatch(&vec![true]).unwrap();
    assert_eq!(p.active_connections(chosen), 1);
    let (s, actions) = drive(&[
        RelayEvent::Start,
        RelayEvent::BackendConnected,
        RelayEvent::CopyFinished(Direction::BackendToClient, true),
        RelayEvent::ShutdownFinished(true),
        RelayEvent::CopyFinished(Direction::ClientToBackend, true),
        RelayEvent::ShutdownFinished(true),
    ]);
    assert_eq!(
        actions,
        vec![
            RelayAction::ConnectBackend,
            RelayAction::StartCopies,
            RelayAction::ShutdownWrite(Side::Client),
            RelayAction::AwaitCopy(Direction::ClientToBackend),
            RelayAction::ShutdownWrite(Side::Backend),
            RelayAction::ReleaseBackend(RelayOutcome::Success),
        ]
    );
    assert_eq!(s, RelayState::Closed(RelayOutcome::Success));
    assert!(s.is_closed());
    let n = actions.iter().filter(|a| matches!(a, RelayAction::ReleaseBackend(_))).count();
    assert_eq!(n, 1);
    p.release(chosen);
    assert_eq!(p.active_connections(chosen), 0);
}

#[test]
fn client_eof_shuts_backend_write_and_keeps_backend_stream() {
    let (s, actions) = drive(&[
        RelayEvent::Start,
        RelayEvent::BackendConnected,
        RelayEvent::CopyFinished(Direction::ClientToBackend, true),
        RelayEvent::ShutdownFinished(true),
        RelayEvent::CopyFinished(Direction::ClientToBackend, true),
        RelayEvent::TornDown,
        RelayEvent::ShutdownFinished(true),
    ]);
    assert_eq!(actions[2], RelayAction::ShutdownWrite(Side::Backend));
    assert_eq!(actions[3], RelayAction::AwaitCopy(Direction::BackendToClient));
    assert_eq!(&actions[4..], &[RelayAction::Ignore, RelayAction::Ignore, RelayAction::Ignore]);
    assert_eq!(s, RelayState::HalfClosed(Direction::BackendToClient));
    assert!(!s.is_closed());
    let (t, a) = s.step(RelayEvent::CopyFinished(Direction::BackendToClient, true));
    assert_eq!(t, RelayState::Closing);
    assert_eq!(a, RelayAction::ShutdownWrite(Side::Client));
}

#[test]
fn backend_connect_refused_is_unreachable() {
    let mut p = BackendPool::new(vec!["down:1".to_string(), "up:2".to_string()]).unwrap();
    let chosen = p.dispatch(&vec![true, true]).unwrap();
    assert_eq!(chosen, 0);
    let (s, actions) = drive(&[
        RelayEvent::Start,
        RelayEvent::BackendConnectFailed,
        RelayEvent::TornDown,
    ]);
    assert_eq!(
        actions,
        vec![
            RelayAction::ConnectBackend,
            RelayAction::TearDown,
            RelayAction::ReleaseBackend(RelayOutcome::Failure(RelayError::BackendUnreachable)),
        ]
    );
    assert_eq!(s, RelayState::Closed(RelayOutcome::Failure(RelayError::BackendUnreachable)));
    p.release(chosen);
    assert_eq!(p.snapshot(), vec![0, 0]);
}

#[test]
fn copy_error_fails_with_relay_io() {
    let (s, actions) = drive(&[
        RelayEvent::Start,
        RelayEvent::BackendConnected,
        RelayEvent::CopyFinished(Direction::BackendToClient, false),
        RelayEvent::TornDown,
    ]);
    assert_eq!(actions[2], RelayAction::TearDown);
    assert_eq!(s, RelayState::Closed(RelayOutcome::Failure(RelayError::RelayIo)));
}

#[test]
fn shutdown_error_fails_with_relay_io() {
    let (s, _) = drive(&[
        RelayEvent::Start,
        RelayEvent::BackendConnected,
        RelayEvent::CopyFinished(Direction::ClientToBackend, true),
        RelayEvent::ShutdownFinished(false),
    ]);
    assert_eq!(s, RelayState::Failed(RelayError::RelayIo));
}

#[test]
fn closed_relay_ignores_everything() {
    let s = RelayState::Closed(RelayOutcome::Success);
    for e in [RelayEvent::Start, RelayEvent::TornDown, RelayEvent::ShutdownFinished(true)] {
        assert_eq!(s.step(e), (s, RelayAction::Ignore));
    }
}
