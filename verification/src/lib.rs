//! A multi-port MIDI clock master and sync checker.
//!
//! One logical tempo source drives many independent downstream MIDI
//! devices, each receiving a byte-accurate stream of System Real-Time
//! messages whose phase aligns to a shared musical timeline; a separate
//! checker receives such streams and reports measured tempo and alignment.
//! The library holds the synchronization engine — generators, coordinator,
//! bus and estimators — as verified state machines; the caller owns the
//! MIDI driver and the terminal, performs the driver actions the engine
//! decides on, and reports their outcomes.

pub mod bus;
pub mod circularbuffer;
pub mod midimessages;
pub mod midisync;
pub mod multisync;
pub mod programclock;
pub mod syncchecker;
