use midimaxe::midisync::MidiSyncState;
use midimaxe::multisync::{
    MultiSync, MultiSyncCommand, MultiSyncEvent, MultiSyncState, PortAction, PortInfo, Settings,
};
use midimaxe::programclock::ProgramTime;

fn t(nanos: u64) -> ProgramTime {
    ProgramTime::from_nanos(nanos)
}

fn port(id: &str, name: &str) -> PortInfo {
    PortInfo { id: String::from(id), name: String::from(name) }
}

#[test]
fn settings_validity_bounds() {
    assert!(Settings::new(60, 1, None).is_valid());
    assert!(Settings::new(300, 16, Some(24)).is_valid());
    assert!(!Settings::new(59, 16, None).is_valid());
    assert!(!Settings::new(301, 16, None).is_valid());
    assert!(!Settings::new(120, 0, None).is_valid());
    assert!(!Settings::new(120, 16, Some(0)).is_valid());
    // The quantum may grow up to the machine limit of the grid arithmetic.
    assert!(Settings::new(100, 2_000_000, None).is_valid());
    assert!(Settings::new(100, 307_445_734, None).is_valid());
    assert!(!Settings::new(100, 307_445_735, None).is_valid());
}

#[test]
fn next_quantum_at_or_before_anchor_is_anchor() {
    let s = Settings::new(120, 16, None);
    assert_eq!(s.next_quantum(t(1_000_000_000), t(1_000_000_000)), t(1_000_000_000));
    assert_eq!(s.next_quantum(t(1_000_000_000), t(500)), t(1_000_000_000));
}

#[test]
fn next_quantum_snaps_to_grid() {
    // 120 BPM, quantum 16 quarters: Q = 8 s.  A port joining 0.37 s after
    // the anchor snaps to anchor + 8 s, not to its own join time.
    let s = Settings::new(120, 16, None);
    assert_eq!(s.next_quantum(t(1_000_000_000), t(1_370_000_000)), t(9_000_000_000));
    // Exactly on a grid point: that point, not the one after.
    assert_eq!(s.next_quantum(t(1_000_000_000), t(9_000_000_000)), t(9_000_000_000));
    // Just past a grid point: the next one.
    assert_eq!(s.next_quantum(t(1_000_000_000), t(9_000_000_001)), t(17_000_000_000));
}

#[test]
fn elapsed_quantums_and_quarters_in_thousandths() {
    let s = Settings::new(120, 16, None);
    // 4 s into an 8 s quantum: half a quantum; 8 quarters.
    assert_eq!(s.quantum(t(0), t(4_000_000_000)), 500);
    assert_eq!(s.get_quarter(t(0), t(4_000_000_000)), 8_000);
    assert_eq!(s.quantum(t(10), t(10)), 0);
    assert_eq!(s.get_quarter(t(10), t(5)), 0);
}

#[test]
fn transition_returns_new_state() {
    let s = MultiSyncState::Stopped;
    assert_eq!(s.transition(MultiSyncState::Started(t(5))), MultiSyncState::Started(t(5)));
}

fn drain(rx: &crossbeam_channel::Receiver<MultiSyncEvent>) -> Vec<MultiSyncEvent> {
    let mut out = Vec::new();
    while let Ok(ev) = rx.try_recv() {
        out.push(ev);
    }
    out
}

#[test]
fn settings_update_only_while_stopped() {
    let (mut ms, cmd) = MultiSync::new();
    let (tx, rx) = crossbeam_channel::unbounded();
    cmd.send(MultiSyncCommand::AddListener(tx)).unwrap();
    cmd.send(MultiSyncCommand::UpdateSettings(Settings::new(92, 16, None))).unwrap();
    // Intercepting AddListener ends that command pass; the settings update
    // is processed on the next one.
    let _ = ms.run(t(0));
    let _ = ms.run(t(1));
    let evs = drain(&rx);
    assert!(evs.iter().any(|e| matches!(e,
        MultiSyncEvent::SettingsUpdated(s) if s.bpm == 92 && s.quantum == 16)));
    assert!(evs.iter().any(|e| matches!(e,
        MultiSyncEvent::DisplayUpdate(d) if d.settings.bpm == 92)));
    // While started, the same command is rejected and the tempo keeps.
    cmd.send(MultiSyncCommand::Start).unwrap();
    let _ = ms.run(t(1_000_000));
    cmd.send(MultiSyncCommand::UpdateSettings(Settings::new(100, 16, None))).unwrap();
    let _ = ms.run(t(600_000_000));
    let evs = drain(&rx);
    assert!(!evs.iter().any(|e| matches!(e, MultiSyncEvent::SettingsUpdated(_))));
    assert!(evs.iter().any(|e| matches!(e,
        MultiSyncEvent::DisplayUpdate(d) if d.settings.bpm == 92
            && matches!(d.state, MultiSyncState::Started(_)))));
    // Invalid settings while stopped are rejected too.
    cmd.send(MultiSyncCommand::Stop).unwrap();
    let _ = ms.run(t(1_200_000_000));
    cmd.send(MultiSyncCommand::UpdateSettings(Settings::new(10, 16, None))).unwrap();
    let _ = ms.run(t(1_800_000_000));
    let evs = drain(&rx);
    assert!(!evs.iter().any(|e| matches!(e, MultiSyncEvent::SettingsUpdated(_))));
}

#[test]
fn port_diff_announces_new_and_drops_vanished() {
    let (mut ms, _cmd) = MultiSync::new();
    let (tx, rx) = crossbeam_channel::unbounded();
    ms.ctrl.listeners.push(tx);
    assert!(ms.needs_port_refresh(t(0)));
    let _ = ms.update_ports(t(0), &vec![port("a:0", "Synth A"), port("b:0", "Synth B")]);
    assert!(!ms.needs_port_refresh(t(500_000_000)));
    assert!(ms.needs_port_refresh(t(1_000_000_002)));
    let evs = drain(&rx);
    assert!(evs.iter().any(|e| matches!(e,
        MultiSyncEvent::NewPorts(ps) if ps.len() == 2 && ps[0].id == "a:0" && ps[1].id == "b:0")));
    // A re-plug under a different handle is a fresh client, never the old
    // one resurrected.
    let _ = ms.update_ports(t(2_000_000_000), &vec![port("b:0", "Synth B"), port("c:9", "Synth A")]);
    let disp = ms.to_display();
    let ids: Vec<&str> = disp.ports.iter().map(|p| p.info.id.as_str()).collect();
    assert_eq!(ids, vec!["b:0", "c:9"]);
    assert!(disp.ports.iter().all(|p| p.state.is_none()));
    // Stable handle, new name: accepted silently, no new client.
    let _ = ms.update_ports(t(3_000_000_000), &vec![port("b:0", "Renamed"), port("c:9", "Synth A")]);
    assert_eq!(ms.to_display().ports.len(), 2);
}

#[test]
fn attach_start_emit_stop_cycle() {
    let (mut ms, cmd) = MultiSync::new();
    let _ = ms.update_ports(t(0), &vec![port("a:0", "Synth A")]);
    // Attach: the coordinator asks for a connection, then gets the report.
    cmd.send(MultiSyncCommand::AddSyncForPort(port("a:0", "Synth A"))).unwrap();
    let (actions, _, _) = ms.run(t(1));
    assert!(actions.iter().any(|a| matches!(a, PortAction::Open { info } if info.id == "a:0")));
    ms.port_opened(&String::from("a:0"));
    let disp = ms.to_display();
    assert!(matches!(disp.ports[0].state, Some(MidiSyncState::Stopped)));
    // A second attach for the same port is rejected: no new connection.
    cmd.send(MultiSyncCommand::AddSyncForPort(port("a:0", "Synth A"))).unwrap();
    let (actions, _, _) = ms.run(t(1));
    assert!(actions.iter().all(|a| !matches!(a, PortAction::Open { .. })));
    // Start: the anchor lies 100 ms ahead; nothing due before it.
    cmd.send(MultiSyncCommand::Start).unwrap();
    let (actions, _, _) = ms.run(t(2));
    assert!(actions.iter().all(|a| !matches!(a, PortAction::Emit { .. })));
    // Past the anchor the port gets its Start byte and first clocks.
    let (actions, _, _) = ms.run(t(200_000_000));
    let emitted: Vec<&Vec<u8>> = actions
        .iter()
        .filter_map(|a| match a {
            PortAction::Emit { id, bytes } if id == "a:0" => Some(bytes),
            _ => None,
        })
        .collect();
    assert_eq!(emitted.len(), 1);
    assert_eq!(emitted[0][0], 0xFA);
    assert!(emitted[0][1..].iter().all(|b| *b == 0xF8));
    // Detaching a running generator is refused; it keeps clocking.
    cmd.send(MultiSyncCommand::DelSyncForPort(port("a:0", "Synth A"))).unwrap();
    let (actions, _, _) = ms.run(t(210_000_000));
    assert!(actions.iter().all(|a| !matches!(a, PortAction::Close { .. })));
    assert!(matches!(ms.to_display().ports[0].state, Some(MidiSyncState::Running)));
    // Stop: exactly one Stop byte for the attached port (the pass may
    // first deliver the clocks that came due since the previous tick).
    cmd.send(MultiSyncCommand::Stop).unwrap();
    let (actions, _, _) = ms.run(t(300_000_000));
    let stops = actions
        .iter()
        .filter(|a| matches!(a, PortAction::Emit { id, bytes } if id == "a:0" && bytes == &vec![0xFCu8]))
        .count();
    assert_eq!(stops, 1);
    // Detach is allowed now that the generator is stopped.
    cmd.send(MultiSyncCommand::DelSyncForPort(port("a:0", "Synth A"))).unwrap();
    let (actions, _, _) = ms.run(t(400_000_000));
    assert!(actions.iter().any(|a| matches!(a, PortAction::Close { id } if id == "a:0")));
    assert!(ms.to_display().ports[0].state.is_none());
}

#[test]
fn start_port_requires_running_master() {
    let (mut ms, cmd) = MultiSync::new();
    let _ = ms.update_ports(t(0), &vec![port("a:0", "A")]);
    cmd.send(MultiSyncCommand::AddSyncForPort(port("a:0", "A"))).unwrap();
    let _ = ms.run(t(0));
    ms.port_opened(&String::from("a:0"));
    // Master stopped: StartPort is refused, the generator stays stopped.
    cmd.send(MultiSyncCommand::StartPort(port("a:0", "A"))).unwrap();
    let _ = ms.run(t(1));
    assert!(matches!(ms.to_display().ports[0].state, Some(MidiSyncState::Stopped)));
    // Master started: the port is armed on the grid.
    cmd.send(MultiSyncCommand::Start).unwrap();
    let _ = ms.run(t(2));
    cmd.send(MultiSyncCommand::StopPort(port("a:0", "A"))).unwrap();
    let _ = ms.run(t(3));
    assert!(matches!(ms.to_display().ports[0].state, Some(MidiSyncState::Stopped)));
    cmd.send(MultiSyncCommand::StartPort(port("a:0", "A"))).unwrap();
    let _ = ms.run(t(4));
    assert!(matches!(ms.to_display().ports[0].state, Some(MidiSyncState::Starting)));
}

#[test]
fn disconnected_listener_is_pruned_on_publish() {
    let (mut ms, cmd) = MultiSync::new();
    let (tx_dead, rx_dead) = crossbeam_channel::unbounded();
    let (tx_live, rx_live) = crossbeam_channel::unbounded();
    cmd.send(MultiSyncCommand::AddListener(tx_dead)).unwrap();
    let _ = ms.run(t(0));
    cmd.send(MultiSyncCommand::AddListener(tx_live)).unwrap();
    let _ = ms.run(t(1));
    assert_eq!(ms.ctrl.listeners.len(), 2);
    drop(rx_dead);
    // The next publish prunes the dead subscriber and the live one still
    // receives every event.
    let _ = ms.update_ports(t(1), &vec![port("a:0", "A")]);
    assert_eq!(ms.ctrl.listeners.len(), 1);
    let evs = drain(&rx_live);
    assert!(evs.iter().any(|e| matches!(e,
        MultiSyncEvent::NewPorts(ps) if ps.len() == 1 && ps[0].id == "a:0")));
}

#[test]
fn full_but_connected_listener_stays_subscribed() {
    let (mut ms, cmd) = MultiSync::new();
    // A rendezvous channel with nobody receiving reports Full on a
    // non-blocking send: the message is lost but the subscriber stays.
    let (tx_full, rx_full) = crossbeam_channel::bounded(0);
    cmd.send(MultiSyncCommand::AddListener(tx_full)).unwrap();
    let _ = ms.run(t(0));
    assert_eq!(ms.ctrl.listeners.len(), 1);
    let _ = ms.update_ports(t(1), &vec![port("a:0", "A")]);
    assert_eq!(ms.ctrl.listeners.len(), 1);
    assert!(rx_full.try_recv().is_err());
}

#[test]
fn shutdown_stops_and_closes_every_attached_port() {
    let (mut ms, cmd) = MultiSync::new();
    let _ = ms.update_ports(t(0), &vec![port("a:0", "A"), port("b:1", "B")]);
    cmd.send(MultiSyncCommand::AddSyncForPort(port("a:0", "A"))).unwrap();
    cmd.send(MultiSyncCommand::AddSyncForPort(port("b:1", "B"))).unwrap();
    cmd.send(MultiSyncCommand::Start).unwrap();
    let _ = ms.run(t(1));
    ms.port_opened(&String::from("a:0"));
    ms.port_opened(&String::from("b:1"));
    cmd.send(MultiSyncCommand::Start).unwrap();
    let _ = ms.run(t(2));
    let (actions, _) = ms.shutdown();
    for id in ["a:0", "b:1"] {
        let stops = actions
            .iter()
            .filter(|a| matches!(a, PortAction::Emit { id: i, bytes } if i == id && bytes == &vec![0xFCu8]))
            .count();
        assert_eq!(stops, 1);
        let closes = actions
            .iter()
            .filter(|a| matches!(a, PortAction::Close { id: i } if i == id))
            .count();
        assert_eq!(closes, 1);
    }
}
