//! Canonical byte encodings of the MIDI System Real-Time messages the clock
//! master emits, and their inverse parse.

use vstd::prelude::*;

verus! {

/// Wire byte of a MIDI Start message.
pub const MIDI_START: u8 = 0xFA;

/// Wire byte of a MIDI Stop message.
pub const MIDI_STOP: u8 = 0xFC;

/// Wire byte of a MIDI Clock message.
pub const MIDI_CLOCK: u8 = 0xF8;

/// A single-byte MIDI System Real-Time message, carrying the driver's
/// callback timestamp in microseconds.
#[derive(Debug, Clone, Copy, PartialEq, Eq, Structural)]
pub enum MidiRealtimeMessage {
    MidiStart(u64),
    MidiStop(u64),
    MidiClock(u64),
}

impl MidiRealtimeMessage {
    /// The driver timestamp the message was received at, in microseconds.
    pub open spec fn spec_micros(self) -> u64 {
        match self {
            MidiRealtimeMessage::MidiStart(t) => t,
            MidiRealtimeMessage::MidiStop(t) => t,
            MidiRealtimeMessage::MidiClock(t) => t,
        }
    }

    /// The single wire byte that encodes the message.
    pub open spec fn spec_byte(self) -> u8 {
        match self {
            MidiRealtimeMessage::MidiStart(_) => MIDI_START,
            MidiRealtimeMessage::MidiStop(_) => MIDI_STOP,
            MidiRealtimeMessage::MidiClock(_) => MIDI_CLOCK,
        }
    }

    /// What `from_midi` returns for a timestamp and raw bytes.
    pub open spec fn spec_parse(micros: u64, data: Seq<u8>) -> Option<MidiRealtimeMessage> {
        if data.len() == 1 && data[0] == MIDI_START {
            Some(MidiRealtimeMessage::MidiStart(micros))
        } else if data.len() == 1 && data[0] == MIDI_STOP {
            Some(MidiRealtimeMessage::MidiStop(micros))
        } else if data.len() == 1 && data[0] == MIDI_CLOCK {
            Some(MidiRealtimeMessage::MidiClock(micros))
        } else {
            None
        }
    }

    /// Parse a raw MIDI event: a real-time message is a single Start, Stop or
    /// Clock byte; anything else is not a real-time message.
    pub fn from_midi(micros: u64, data: &[u8]) -> (r: Option<MidiRealtimeMessage>)
        ensures
            r == Self::spec_parse(micros, data@),
    {
        if data.len() == 1 {
            let b = data[0];
            if b == MIDI_START {
                Some(MidiRealtimeMessage::MidiStart(micros))
            } else if b == MIDI_STOP {
                Some(MidiRealtimeMessage::MidiStop(micros))
            } else if b == MIDI_CLOCK {
                Some(MidiRealtimeMessage::MidiClock(micros))
            } else {
                None
            }
        } else {
            None
        }
    }

    /// The wire encoding of the message: exactly one byte.
    pub fn to_midi(&self) -> (r: [u8; 1])
        ensures
            r@ =~= seq![self.spec_byte()],
    {
        match self {
            MidiRealtimeMessage::MidiClock(_) => [MIDI_CLOCK],
            MidiRealtimeMessage::MidiStart(_) => [MIDI_START],
            MidiRealtimeMessage::MidiStop(_) => [MIDI_STOP],
        }
    }
}

/// Parsing inverts emission: a message's own wire byte, parsed back with its
/// own timestamp, yields the message again.
pub proof fn lemma_midi_roundtrip(m: MidiRealtimeMessage)
    ensures
        MidiRealtimeMessage::spec_parse(m.spec_micros(), seq![m.spec_byte()]) == Some(m),
{
    assert(seq![m.spec_byte()][0] == m.spec_byte());
}

} // verus!
