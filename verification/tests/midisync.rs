use midimaxe::midisync::{period_of, MidiSync, MidiSyncState};
use midimaxe::programclock::ProgramTime;

fn t(nanos: u64) -> ProgramTime {
    ProgramTime::from_nanos(nanos)
}

#[test]
fn period_is_exact() {
    // 120 BPM at 24 PPQN: 60s / 2880 ticks.
    assert_eq!(period_of(120, 24), 20_833_333);
    // 100 BPM at 24 PPQN divides exactly.
    assert_eq!(period_of(100, 24), 25_000_000);
    assert_eq!(period_of(60, 1), 1_000_000_000);
}

#[test]
fn start_then_run_emits_one_start_then_clock_on_anchor() {
    let mut g = MidiSync::new(120, None);
    assert!(matches!(g.state(), MidiSyncState::Stopped));
    g.start(Some(t(1_000_000_000)), t(0));
    assert!(matches!(g.state(), MidiSyncState::Starting));
    // Before the anchor: nothing due, next event is the anchor.
    let (bytes, next) = g.run(t(999_999_999));
    assert!(bytes.is_empty());
    assert_eq!(next, Some(t(1_000_000_000)));
    // On the anchor: exactly one Start, then the first Clock on the anchor.
    let (bytes, next) = g.run(t(1_000_000_000));
    assert_eq!(bytes, vec![0xFA, 0xF8]);
    assert_eq!(next, Some(t(1_020_833_333)));
    assert!(matches!(g.state(), MidiSyncState::Running));
}

#[test]
fn catch_up_emits_every_missed_clock() {
    // One second at 120 BPM / 24 PPQN holds 48 further clock instants.
    let mut g = MidiSync::new(120, None);
    g.start(Some(t(1_000_000_000)), t(0));
    let (bytes, _) = g.run(t(1_000_000_000));
    assert_eq!(bytes.len(), 2);
    let (bytes, next) = g.run(t(2_000_000_000));
    assert_eq!(bytes.len(), 48);
    assert!(bytes.iter().all(|b| *b == 0xF8));
    // Drift-free: the 49th clock instant counted from the anchor.
    assert_eq!(next, Some(t(1_000_000_000 + 49 * 20_833_333)));
}

#[test]
fn two_generators_on_one_anchor_stay_in_phase() {
    // Both armed on the same anchor; even with different tick jitter they
    // emit the same total byte stream and schedule the same instants.
    let anchor = t(1_000_000_000);
    let mut a = MidiSync::new(120, None);
    let mut b = MidiSync::new(120, None);
    a.start(Some(anchor), t(0));
    b.start(Some(anchor), t(0));
    let mut a_bytes: Vec<u8> = Vec::new();
    let mut b_bytes: Vec<u8> = Vec::new();
    // a is ticked promptly, b late and in bursts.
    for step in [1_000_000_000u64, 1_250_000_000, 1_500_000_000, 1_750_000_000, 2_000_000_000] {
        let (bytes, _) = a.run(t(step));
        a_bytes.extend(bytes);
    }
    for step in [1_600_000_000u64, 2_000_000_000] {
        let (bytes, _) = b.run(t(step));
        b_bytes.extend(bytes);
    }
    assert_eq!(a_bytes, b_bytes);
    let (_, next_a) = a.run(t(2_000_000_000));
    let (_, next_b) = b.run(t(2_000_000_000));
    assert_eq!(next_a, next_b);
}

#[test]
fn run_is_quiet_before_next_clk() {
    let mut g = MidiSync::new(100, None);
    g.start(Some(t(0)), t(0));
    let (_, next) = g.run(t(0));
    assert_eq!(next, Some(t(25_000_000)));
    let (bytes, next) = g.run(t(24_999_999));
    assert!(bytes.is_empty());
    assert_eq!(next, Some(t(25_000_000)));
}

#[test]
fn update_rejected_outside_stopped() {
    let mut g = MidiSync::new(120, None);
    assert!(g.update(100, Some(48)).is_ok());
    g.start(Some(t(10)), t(0));
    // Starting: refused, tempo unchanged.
    assert!(g.update(200, None).is_err());
    let (_, next) = g.run(t(10));
    // Cadence still reflects 100 BPM at 48 PPQN (12.5 ms period).
    assert_eq!(next, Some(t(10 + 12_500_000)));
    // Running: refused too.
    assert!(g.update(200, None).is_err());
}

#[test]
fn stop_is_idempotent_and_always_requests_stop_byte() {
    let mut g = MidiSync::new(120, None);
    g.start(None, t(5));
    assert_eq!(g.stop(), 0xFC);
    assert!(matches!(g.state(), MidiSyncState::Stopped));
    assert_eq!(g.stop(), 0xFC);
    assert!(matches!(g.state(), MidiSyncState::Stopped));
    // A stopped generator schedules nothing.
    let (bytes, next) = g.run(t(100));
    assert!(bytes.is_empty());
    assert_eq!(next, None);
}

#[test]
fn send_failure_latches_error_until_removed() {
    let mut g = MidiSync::new(120, None);
    g.start(Some(t(0)), t(0));
    let _ = g.run(t(0));
    g.send_failed(String::from("device unplugged"));
    match g.state() {
        MidiSyncState::Error(msg) => assert_eq!(msg, "device unplugged"),
        other => panic!("expected Error, got {:?}", other),
    }
    // Error: tick schedules nothing, start is a no-op, stop keeps the latch.
    let (bytes, next) = g.run(t(1));
    assert!(bytes.is_empty());
    assert_eq!(next, None);
    g.start(Some(t(5)), t(5));
    assert!(matches!(g.state(), MidiSyncState::Error(_)));
    assert_eq!(g.stop(), 0xFC);
    assert!(matches!(g.state(), MidiSyncState::Error(_)));
    // The first error stays visible.
    g.send_failed(String::from("second failure"));
    match g.state() {
        MidiSyncState::Error(msg) => assert_eq!(msg, "device unplugged"),
        other => panic!("expected Error, got {:?}", other),
    }
}
