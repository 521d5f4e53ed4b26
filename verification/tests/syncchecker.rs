use midimaxe::midimessages::MidiRealtimeMessage;
use midimaxe::programclock::ProgramTime;
use midimaxe::syncchecker::{ClientState, MidiSyncClient};

fn t(nanos: u64) -> ProgramTime {
    ProgramTime::from_nanos(nanos)
}

fn client(history: usize) -> MidiSyncClient {
    let (_tx, rx) = crossbeam_channel::unbounded();
    MidiSyncClient::new(history, 24, 1, rx)
}

#[test]
fn steady_clock_stream_measures_the_sent_tempo() {
    // 100 BPM at 24 PPQN: one clock every 25 000 us.  Start, the anchor
    // clock, then three more clocks: three measured intervals.
    let mut c = client(4);
    c.handle_message(t(0), MidiRealtimeMessage::MidiStart(1_000_000));
    c.handle_message(t(1), MidiRealtimeMessage::MidiClock(1_000_000));
    c.handle_message(t(2), MidiRealtimeMessage::MidiClock(1_025_000));
    c.handle_message(t(3), MidiRealtimeMessage::MidiClock(1_050_000));
    c.handle_message(t(4), MidiRealtimeMessage::MidiClock(1_075_000));
    assert_eq!(c.total_ticks, 3);
    // 100.000 BPM, in thousandths, from both estimators.
    assert_eq!(c.bpm_overall(), 100_000);
    assert_eq!(c.bpm_recent(), 100_000);
    let d = c.display(t(5));
    assert_eq!(d.bpm_overall, 100_000);
    assert_eq!(d.bpm_recent, 100_000);
    assert!(d.has_clock);
    // Start counts as the first beat: (3 + 1) / 24 quarters, thousandths.
    assert_eq!(d.total_quarters, 166);
}

#[test]
fn estimators_are_zero_without_enough_data() {
    let mut c = client(4);
    assert_eq!(c.bpm_overall(), 0);
    assert_eq!(c.bpm_recent(), 0);
    c.handle_message(t(0), MidiRealtimeMessage::MidiStart(0));
    c.handle_message(t(1), MidiRealtimeMessage::MidiClock(500));
    // Anchor only: no interval yet.
    assert_eq!(c.total_ticks, 0);
    assert_eq!(c.bpm_overall(), 0);
    assert_eq!(c.bpm_recent(), 0);
}

#[test]
fn recent_window_forgets_old_tempo() {
    // Ring of 3: after a tempo change, only the newest intervals count.
    let mut c = client(3);
    c.handle_message(t(0), MidiRealtimeMessage::MidiStart(0));
    c.handle_message(t(1), MidiRealtimeMessage::MidiClock(0));
    c.handle_message(t(2), MidiRealtimeMessage::MidiClock(50_000));
    c.handle_message(t(3), MidiRealtimeMessage::MidiClock(75_000));
    c.handle_message(t(4), MidiRealtimeMessage::MidiClock(100_000));
    // Window holds 50 000, 75 000, 100 000: mean interval 25 000 us.
    assert_eq!(c.bpm_recent(), 100_000);
}

#[test]
fn state_machine_follows_the_stream() {
    let mut c = client(4);
    assert!(matches!(c.state, ClientState::Stopped));
    // A clock while stopped is unexpected and changes nothing.
    c.handle_message(t(0), MidiRealtimeMessage::MidiClock(10));
    assert!(matches!(c.state, ClientState::Stopped));
    c.handle_message(t(1), MidiRealtimeMessage::MidiStart(20));
    assert!(matches!(c.state, ClientState::Started(None)));
    // A start while started is unexpected too.
    c.handle_message(t(2), MidiRealtimeMessage::MidiStart(30));
    assert!(matches!(c.state, ClientState::Started(None)));
    c.handle_message(t(3), MidiRealtimeMessage::MidiClock(40));
    match c.state {
        ClientState::Started(Some(anchor)) => {
            assert_eq!(anchor.0, t(3));
            assert_eq!(anchor.1, 40);
        }
        other => panic!("expected anchored start, got {:?}", other),
    }
    c.handle_message(t(4), MidiRealtimeMessage::MidiStop(50));
    assert!(matches!(c.state, ClientState::Stopped));
    // Stop while stopped is valid and idempotent.
    c.handle_message(t(5), MidiRealtimeMessage::MidiStop(60));
    assert!(matches!(c.state, ClientState::Stopped));
}

#[test]
fn restart_clears_the_window() {
    let mut c = client(4);
    c.handle_message(t(0), MidiRealtimeMessage::MidiStart(0));
    c.handle_message(t(1), MidiRealtimeMessage::MidiClock(0));
    c.handle_message(t(2), MidiRealtimeMessage::MidiClock(25_000));
    c.handle_message(t(3), MidiRealtimeMessage::MidiStop(30_000));
    c.handle_message(t(4), MidiRealtimeMessage::MidiStart(40_000));
    assert_eq!(c.total_ticks, 0);
    assert_eq!(c.bpm_recent(), 0);
    assert_eq!(c.history.get_buf().len(), 0);
}

#[test]
fn run_drains_the_queue_in_order() {
    let (tx, rx) = crossbeam_channel::unbounded();
    let mut c = MidiSyncClient::new(4, 24, 7, rx);
    tx.send((t(0), MidiRealtimeMessage::MidiStart(1_000_000))).unwrap();
    tx.send((t(1), MidiRealtimeMessage::MidiClock(1_000_000))).unwrap();
    tx.send((t(2), MidiRealtimeMessage::MidiClock(1_025_000))).unwrap();
    tx.send((t(3), MidiRealtimeMessage::MidiClock(1_050_000))).unwrap();
    let _ = c.run();
    assert_eq!(c.total_ticks, 2);
    assert_eq!(c.bpm_overall(), 100_000);
    assert!(matches!(c.state, ClientState::Started(Some(_))));
}

#[test]
fn has_clock_requires_a_recent_message() {
    let mut c = client(4);
    c.handle_message(t(1_000_000_000), MidiRealtimeMessage::MidiStart(0));
    c.handle_message(t(1_000_000_000), MidiRealtimeMessage::MidiClock(0));
    assert!(c.display(t(1_500_000_000)).has_clock);
    assert!(!c.display(t(2_000_000_001)).has_clock);
}
