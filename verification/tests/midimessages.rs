use midimaxe::midimessages::{MidiRealtimeMessage, MIDI_CLOCK, MIDI_START, MIDI_STOP};

#[test]
fn parse_each_realtime_byte() {
    assert_eq!(
        MidiRealtimeMessage::from_midi(7, &[0xFA]),
        Some(MidiRealtimeMessage::MidiStart(7))
    );
    assert_eq!(
        MidiRealtimeMessage::from_midi(8, &[0xFC]),
        Some(MidiRealtimeMessage::MidiStop(8))
    );
    assert_eq!(
        MidiRealtimeMessage::from_midi(9, &[0xF8]),
        Some(MidiRealtimeMessage::MidiClock(9))
    );
}

#[test]
fn parse_rejects_other_data() {
    assert_eq!(MidiRealtimeMessage::from_midi(1, &[0x90]), None);
    assert_eq!(MidiRealtimeMessage::from_midi(1, &[]), None);
    assert_eq!(MidiRealtimeMessage::from_midi(1, &[0xFA, 0xFA]), None);
    assert_eq!(MidiRealtimeMessage::from_midi(1, &[0x90, 0x40, 0x7F]), None);
}

#[test]
fn emit_bytes_are_canonical() {
    assert_eq!(MidiRealtimeMessage::MidiStart(0).to_midi(), [MIDI_START]);
    assert_eq!(MidiRealtimeMessage::MidiStop(0).to_midi(), [MIDI_STOP]);
    assert_eq!(MidiRealtimeMessage::MidiClock(0).to_midi(), [MIDI_CLOCK]);
    assert_eq!(MIDI_START, 0xFA);
    assert_eq!(MIDI_STOP, 0xFC);
    assert_eq!(MIDI_CLOCK, 0xF8);
}

#[test]
fn parse_inverts_emit() {
    let msgs = [
        MidiRealtimeMessage::MidiStart(123),
        MidiRealtimeMessage::MidiStop(456),
        MidiRealtimeMessage::MidiClock(789),
    ];
    for m in msgs {
        let t = match m {
            MidiRealtimeMessage::MidiStart(t) => t,
            MidiRealtimeMessage::MidiStop(t) => t,
            MidiRealtimeMessage::MidiClock(t) => t,
        };
        assert_eq!(MidiRealtimeMessage::from_midi(t, &m.to_midi()), Some(m));
    }
}
