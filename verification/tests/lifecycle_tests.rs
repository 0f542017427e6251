use taiko::lifecycle::{Action, Event, Lifecycle, Phase};

#[test]
fn serving_accepts_and_counts_connections() {
    let mut lifecycle = Lifecycle::new();
    assert_eq!(lifecycle.phase(), Phase::Serving);
    assert_eq!(lifecycle.step(Event::Accepted), Action::Serve);
    assert_eq!(lifecycle.step(Event::Accepted), Action::Serve);
    assert_eq!(lifecycle.inflight(), 2);
    assert_eq!(lifecycle.step(Event::ConnectionDone), Action::Carry);
    assert_eq!(lifecycle.inflight(), 1);
}

#[test]
fn shutdown_drains_in_flight_work_before_finishing() {
    let mut lifecycle = Lifecycle::new();
    assert_eq!(lifecycle.step(Event::Accepted), Action::Serve);
    assert_eq!(lifecycle.step(Event::ShutdownSignal), Action::Carry);
    assert_eq!(lifecycle.phase(), Phase::Draining);
    // no new connection is accepted after the signal
    assert_eq!(lifecycle.step(Event::Accepted), Action::Refuse);
    assert_eq!(lifecycle.inflight(), 1);
    // the connection already in flight finishes, and only then does the
    // lifecycle return
    assert_eq!(lifecycle.step(Event::ConnectionDone), Action::Finish);
    assert_eq!(lifecycle.phase(), Phase::Stopped);
    assert_eq!(lifecycle.inflight(), 0);
}

#[test]
fn idle_shutdown_finishes_at_once() {
    let mut lifecycle = Lifecycle::new();
    assert_eq!(lifecycle.step(Event::ShutdownSignal), Action::Finish);
    assert_eq!(lifecycle.phase(), Phase::Stopped);
}

#[test]
fn stopped_lifecycle_refuses_everything() {
    let mut lifecycle = Lifecycle::new();
    assert_eq!(lifecycle.step(Event::ShutdownSignal), Action::Finish);
    assert_eq!(lifecycle.step(Event::Accepted), Action::Refuse);
    assert_eq!(lifecycle.step(Event::ShutdownSignal), Action::Carry);
    assert_eq!(lifecycle.phase(), Phase::Stopped);
}
