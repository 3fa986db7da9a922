use fe_monitor::scheduler::{pick_sleep_ms, CycleEvent, LoopState, Scheduler};

#[test]
fn one_cycle_with_a_transition() {
    let mut s = Scheduler::new();
    assert_eq!(s.state, LoopState::Idle);
    assert_eq!(s.cycle, 0);
    s.step(false, CycleEvent::Begin);
    assert_eq!(s.state, LoopState::Polling);
    assert_eq!(s.cycle, 1);
    s.step(false, CycleEvent::Polled { success: true, transitions: 1 });
    assert_eq!(s.state, LoopState::Reacting);
    s.step(false, CycleEvent::Reacted);
    assert_eq!(s.state, LoopState::Sleeping);
    s.step(false, CycleEvent::Slept);
    assert_eq!(s.state, LoopState::Idle);
    assert_eq!(s.cycle, 1);
}

#[test]
fn a_quiet_cycle_skips_reacting() {
    let mut s = Scheduler::new();
    s.step(false, CycleEvent::Begin);
    s.step(false, CycleEvent::Polled { success: true, transitions: 0 });
    assert_eq!(s.state, LoopState::Sleeping);
}

#[test]
fn a_failed_cycle_proceeds_to_the_next() {
    let mut s = Scheduler::new();
    s.step(false, CycleEvent::Begin);
    s.step(false, CycleEvent::Polled { success: false, transitions: 0 });
    assert_eq!(s.state, LoopState::Sleeping);
    s.step(false, CycleEvent::Slept);
    s.step(false, CycleEvent::Begin);
    assert_eq!(s.state, LoopState::Polling);
    assert_eq!(s.cycle, 2);
}

#[test]
fn cancellation_stops_from_every_state() {
    for setup in 0..4 {
        let mut s = Scheduler::new();
        if setup >= 1 {
            s.step(false, CycleEvent::Begin);
        }
        if setup >= 2 {
            s.step(false, CycleEvent::Polled { success: true, transitions: 1 });
        }
        if setup >= 3 {
            s.step(false, CycleEvent::Reacted);
        }
        s.step(true, CycleEvent::Begin);
        assert_eq!(s.state, LoopState::Stopped);
    }
}

#[test]
fn stopped_is_terminal() {
    let mut s = Scheduler::new();
    s.step(true, CycleEvent::Begin);
    assert_eq!(s.state, LoopState::Stopped);
    s.step(false, CycleEvent::Begin);
    assert_eq!(s.state, LoopState::Stopped);
    s.step(false, CycleEvent::Slept);
    assert_eq!(s.state, LoopState::Stopped);
    assert_eq!(s.cycle, 0);
}

#[test]
fn mismatched_events_change_nothing() {
    let mut s = Scheduler::new();
    s.step(false, CycleEvent::Reacted);
    assert_eq!(s.state, LoopState::Idle);
    s.step(false, CycleEvent::Slept);
    assert_eq!(s.state, LoopState::Idle);
    assert_eq!(s.cycle, 0);
}

#[test]
fn jitter_stays_in_the_configured_range() {
    for _ in 0..200 {
        let ms = pick_sleep_ms(500, 1000);
        assert!((500..1000).contains(&ms));
    }
    assert_eq!(pick_sleep_ms(7, 8), 7);
}
