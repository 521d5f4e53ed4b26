use midimaxe::programclock::{ProgramClock, ProgramTime, MAX_PROGRAM_NANOS};

#[test]
fn elapsed_time_is_monotonic() {
    let clock = ProgramClock::new();
    let a = clock.now();
    let b = clock.now();
    assert!(a.nanos <= b.nanos);
    let c = clock.now_clamped();
    assert!(c.nanos <= MAX_PROGRAM_NANOS);
}

#[test]
fn program_time_carries_nanos() {
    let t = ProgramTime::from_nanos(1_234_567_890);
    assert_eq!(t.nanos, 1_234_567_890);
    assert_eq!(t, ProgramTime::from_nanos(1_234_567_890));
}
