//! One port's timed emission of MIDI Start/Stop/Clock messages.
//!
//! The generator is a small state machine driven by an external scheduler.
//! It decides which bytes are due on the wire; the caller owns the MIDI
//! output connection, performs the sends in the order given, and reports the
//! first failure through `send_failed`, which latches the `Error` state.
//! The cadence is drift-free: the next scheduled instant always advances by
//! an exact period from the anchor, never from the current time.

use vstd::prelude::*;
use vstd::arithmetic::mul::lemma_mul_is_distributive_add_other_way;
use crate::midimessages::{MIDI_CLOCK, MIDI_START, MIDI_STOP};
use crate::programclock::{ProgramTime, MAX_PROGRAM_NANOS};

verus! {

/// Ticks per quarter note when none is given: the MIDI convention.
pub const DEFAULT_TPQN: u64 = 24;

/// One minute in nanoseconds; the clock period is this over `bpm * tpqn`.
pub const MINUTE_NANOS: u64 = 60_000_000_000;

#[derive(Debug, Clone, PartialEq)]
pub enum MidiSyncState {
    Stopped,
    Starting,
    Running,
    Error(String),
}

/// Tempo parameters the timing arithmetic is specified for: the period is at
/// least one nanosecond and divisions are well defined.
pub open spec fn timing_valid(bpm: u64, tpqn: u64) -> bool {
    &&& 1 <= bpm
    &&& 1 <= tpqn
    &&& bpm * tpqn <= MINUTE_NANOS
}

/// The inter-tick period in nanoseconds: one minute over `bpm * tpqn`
/// (24 ticks per quarter note gives the standard 24 PPQN MIDI clock).
pub open spec fn spec_period_nanos(bpm: u64, tpqn: u64) -> int {
    MINUTE_NANOS as int / (bpm * tpqn) as int
}

/// The effective ticks per quarter note for an optional setting.
pub open spec fn spec_tpqn_or_default(tpqn: Option<u64>) -> u64 {
    match tpqn {
        Some(t) => t,
        None => DEFAULT_TPQN,
    }
}

/// What one scheduling pass of a generator does: the relation between the
/// generator before and after, the bytes the pass put on the wire, and the
/// next scheduled instant it reported.
pub open spec fn spec_run_rel(
    pre: MidiSync,
    now: ProgramTime,
    post: MidiSync,
    emitted: Seq<u8>,
    next: Option<ProgramTime>,
) -> bool {
    &&& post.wf()
    &&& post.bpm == pre.bpm
    &&& post.tpqn == pre.tpqn
    &&& post.start_time == pre.start_time
    &&& post.wire@ =~= pre.wire@ + emitted
    &&& match pre.state {
        MidiSyncState::Stopped | MidiSyncState::Error(_) => {
            &&& post == pre
            &&& emitted =~= Seq::<u8>::empty()
            &&& next is None
        },
        MidiSyncState::Starting => {
            if now.nanos < pre.start_time.unwrap().nanos {
                &&& post == pre
                &&& emitted =~= Seq::<u8>::empty()
                &&& next == pre.start_time
            } else {
                &&& post.state is Running
                &&& post.clocks@ >= 1
                &&& emitted =~= seq![MIDI_START] + Seq::new(post.clocks@, |i: int| MIDI_CLOCK)
                &&& post.next_clk is Some
                &&& post.next_clk.unwrap().nanos > now.nanos
                &&& post.next_clk.unwrap().nanos - post.spec_period() <= now.nanos
                &&& next == post.next_clk
            }
        },
        MidiSyncState::Running => {
            if now.nanos < pre.next_clk.unwrap().nanos {
                &&& post == pre
                &&& emitted =~= Seq::<u8>::empty()
                &&& next == pre.next_clk
            } else {
                &&& post.state is Running
                &&& post.clocks@ > pre.clocks@
                &&& emitted =~= Seq::new((post.clocks@ - pre.clocks@) as nat, |i: int| MIDI_CLOCK)
                &&& post.next_clk is Some
                &&& post.next_clk.unwrap().nanos > now.nanos
                &&& post.next_clk.unwrap().nanos - post.spec_period() <= now.nanos
                &&& next == post.next_clk
            }
        },
    }
}

pub struct MidiSync {
    pub state: MidiSyncState,
    pub start_time: Option<ProgramTime>,
    pub next_clk: Option<ProgramTime>,
    pub bpm: u64,
    pub tpqn: u64,
    /// Number of Clock bytes handed out since the last start.
    pub clocks: Ghost<nat>,
    /// Every byte handed to the caller for sending, in emission order.
    pub wire: Ghost<Seq<u8>>,
}

impl MidiSync {
    /// Structural invariant: scheduling state is present exactly in the
    /// states that use it, and in `Running` the next scheduled instant is
    /// the anchor plus exactly one period per Clock emitted so far.
    pub open spec fn wf(&self) -> bool {
        &&& timing_valid(self.bpm, self.tpqn)
        &&& match self.state {
            MidiSyncState::Stopped | MidiSyncState::Error(_) => {
                self.start_time is None && self.next_clk is None
            },
            MidiSyncState::Starting => {
                &&& self.start_time is Some
                &&& self.next_clk == self.start_time
                &&& self.clocks@ == 0
            },
            MidiSyncState::Running => {
                &&& self.start_time is Some
                &&& self.next_clk is Some
                &&& self.next_clk.unwrap().nanos == self.start_time.unwrap().nanos
                    + self.clocks@ * spec_period_nanos(self.bpm, self.tpqn)
            },
        }
    }

    pub open spec fn spec_period(&self) -> int {
        spec_period_nanos(self.bpm, self.tpqn)
    }

    /// Construct a generator in `Stopped` with the given tempo.
    pub fn new(bpm: u64, tpqn: Option<u64>) -> (r: MidiSync)
        requires
            timing_valid(bpm, spec_tpqn_or_default(tpqn)),
        ensures
            r.wf(),
            r.state is Stopped,
            r.bpm == bpm,
            r.tpqn == spec_tpqn_or_default(tpqn),
            r.wire@ =~= Seq::<u8>::empty(),
    {
        MidiSync {
            state: MidiSyncState::Stopped,
            start_time: None,
            next_clk: None,
            bpm,
            tpqn: match tpqn {
                Some(t) => t,
                None => DEFAULT_TPQN,
            },
            clocks: Ghost(0),
            wire: Ghost(Seq::empty()),
        }
    }

    /// Arm the generator: valid only in `Stopped`, where it records the
    /// anchor (the given instant, or now) and moves to `Starting`.  In any
    /// other state this is a no-op.
    pub fn start(&mut self, start_time: Option<ProgramTime>, now: ProgramTime)
        requires
            old(self).wf(),
        ensures
            final(self).wf(),
            final(self).bpm == old(self).bpm,
            final(self).tpqn == old(self).tpqn,
            final(self).wire@ == old(self).wire@,
            if old(self).state is Stopped {
                &&& final(self).state is Starting
                &&& final(self).start_time == Some(
                    match start_time {
                        Some(t) => t,
                        None => now,
                    },
                )
                &&& final(self).next_clk == final(self).start_time
            } else {
                *final(self) == *old(self)
            },
    {
        if matches!(self.state, MidiSyncState::Stopped) {
            let anchor = match start_time {
                Some(t) => t,
                None => now,
            };
            self.start_time = Some(anchor);
            self.next_clk = Some(anchor);
            self.state = MidiSyncState::Starting;
            self.clocks = Ghost(0);
        }
    }

    /// One scheduling pass.  Returns the bytes now due on the wire, in
    /// order, and the next scheduled instant (`None` in `Stopped`/`Error`).
    ///
    /// In `Starting`, once the anchor is reached, the Start byte is due and
    /// the generator immediately runs the Clock cadence so the first Clock
    /// falls on the anchor itself.  In `Running`, every Clock instant that
    /// has passed is emitted — missed ticks are made up, never coalesced —
    /// and the schedule advances by exact periods from the anchor.
    pub fn run(&mut self, now: ProgramTime) -> (r: (Vec<u8>, Option<ProgramTime>))
        requires
            old(self).wf(),
            now.nanos <= MAX_PROGRAM_NANOS,
        ensures
            spec_run_rel(*old(self), now, *final(self), r.0@, r.1),
    {
        if matches!(self.state, MidiSyncState::Stopped | MidiSyncState::Error(_)) {
            return (Vec::new(), None);
        }
        if matches!(self.state, MidiSyncState::Starting) {
            let start = self.start_time.unwrap();
            if now.nanos < start.nanos {
                return (Vec::new(), Some(start));
            }
            let mut emit: Vec<u8> = Vec::new();
            emit.push(MIDI_START);
            self.state = MidiSyncState::Running;
            let next = self.emit_due_clocks(now, &mut emit);
            self.wire = Ghost(self.wire@ + emit@);
            assert(emit@ =~= seq![MIDI_START] + Seq::new(
                self.clocks@,
                |i: int| MIDI_CLOCK,
            ));
            return (emit, Some(next));
        }
        let next_clk = self.next_clk.unwrap();
        if now.nanos < next_clk.nanos {
            return (Vec::new(), Some(next_clk));
        }
        let mut emit: Vec<u8> = Vec::new();
        let next = self.emit_due_clocks(now, &mut emit);
        self.wire = Ghost(self.wire@ + emit@);
        return (emit, Some(next));
    }

    /// Emit every Clock whose instant has been reached and advance the
    /// schedule by an exact period per emission.
    fn emit_due_clocks(&mut self, now: ProgramTime, emit: &mut Vec<u8>) -> (r: ProgramTime)
        requires
            old(self).wf(),
            old(self).state is Running,
            now.nanos <= MAX_PROGRAM_NANOS,
            old(self).next_clk.unwrap().nanos <= now.nanos,
        ensures
            final(self).wf(),
            final(self).state is Running,
            final(self).bpm == old(self).bpm,
            final(self).tpqn == old(self).tpqn,
            final(self).start_time == old(self).start_time,
            final(self).wire@ == old(self).wire@,
            final(self).clocks@ > old(self).clocks@,
            final(emit)@ =~= old(emit)@ + Seq::new(
                (final(self).clocks@ - old(self).clocks@) as nat,
                |i: int| MIDI_CLOCK,
            ),
            final(self).next_clk is Some,
            r == final(self).next_clk.unwrap(),
            r.nanos > now.nanos,
            r.nanos - final(self).spec_period() <= now.nanos,
    {
        let ghost start_nanos = self.start_time.unwrap().nanos as int;
        let ghost clocks0 = self.clocks@;
        let period = period_of(self.bpm, self.tpqn);
        let mut next = self.next_clk.unwrap();
        while next.nanos <= now.nanos
            invariant
                self.state is Running,
                self.bpm == old(self).bpm,
                self.tpqn == old(self).tpqn,
                self.start_time == old(self).start_time,
                self.next_clk == old(self).next_clk,
                self.wire@ == old(self).wire@,
                timing_valid(self.bpm, self.tpqn),
                period == spec_period_nanos(self.bpm, self.tpqn),
                1 <= period <= MINUTE_NANOS,
                now.nanos <= MAX_PROGRAM_NANOS,
                self.clocks@ >= clocks0,
                next.nanos == start_nanos + self.clocks@ * period,
                next.nanos <= now.nanos + period,
                emit@ =~= old(emit)@ + Seq::new(
                    (self.clocks@ - clocks0) as nat,
                    |i: int| MIDI_CLOCK,
                ),
            decreases now.nanos + period - next.nanos,
        {
            emit.push(MIDI_CLOCK);
            proof {
                lemma_mul_is_distributive_add_other_way(
                    period as int,
                    self.clocks@ as int,
                    1,
                );
                self.clocks@ = self.clocks@ + 1;
            }
            next = ProgramTime { nanos: next.nanos + period };
            assert(emit@ =~= old(emit)@ + Seq::new(
                (self.clocks@ - clocks0) as nat,
                |i: int| MIDI_CLOCK,
            ));
        }
        proof {
            if self.clocks@ == clocks0 {
                assert(next.nanos == start_nanos + clocks0 * period);
            }
        }
        self.next_clk = Some(next);
        next
    }

    /// The caller could not deliver a byte this generator asked for: latch
    /// the error.  An already latched error is kept; the generator must be
    /// removed and re-added to recover.
    pub fn send_failed(&mut self, msg: String)
        requires
            old(self).wf(),
        ensures
            final(self).wf(),
            final(self).bpm == old(self).bpm,
            final(self).tpqn == old(self).tpqn,
            final(self).wire@ == old(self).wire@,
            if old(self).state is Error {
                *final(self) == *old(self)
            } else {
                &&& final(self).state == MidiSyncState::Error(msg)
                &&& final(self).start_time is None
                &&& final(self).next_clk is None
            },
    {
        if !matches!(self.state, MidiSyncState::Error(_)) {
            self.state = MidiSyncState::Error(msg);
            self.start_time = None;
            self.next_clk = None;
        }
    }

    /// Request a Stop on the wire — in every state, since the device state
    /// can never be assumed, stopping must stay easy and redundant-safe.
    /// Clears the schedule; a latched error stays latched.  Returns the byte
    /// the caller must send.
    pub fn stop(&mut self) -> (r: u8)
        requires
            old(self).wf(),
        ensures
            final(self).wf(),
            final(self).bpm == old(self).bpm,
            final(self).tpqn == old(self).tpqn,
            r == MIDI_STOP,
            final(self).wire@ =~= old(self).wire@.push(MIDI_STOP),
            final(self).state == spec_stop_state(old(self).state),
            final(self).start_time is None,
            final(self).next_clk is None,
    {
        if !matches!(self.state, MidiSyncState::Error(_)) {
            self.state = MidiSyncState::Stopped;
        }
        self.start_time = None;
        self.next_clk = None;
        self.clocks = Ghost(0);
        self.wire = Ghost(self.wire@.push(MIDI_STOP));
        MIDI_STOP
    }

    /// Retune: allowed only in `Stopped`; in any other state the tempo is
    /// left untouched and an error is returned.
    pub fn update(&mut self, bpm: u64, tpqn: Option<u64>) -> (r: Result<(), String>)
        requires
            old(self).wf(),
            timing_valid(bpm, spec_tpqn_or_default(tpqn)),
        ensures
            final(self).wf(),
            final(self).wire@ == old(self).wire@,
            if old(self).state is Stopped {
                &&& r is Ok
                &&& final(self).bpm == bpm
                &&& final(self).tpqn == spec_tpqn_or_default(tpqn)
                &&& final(self).state == old(self).state
                &&& final(self).start_time == old(self).start_time
                &&& final(self).next_clk == old(self).next_clk
            } else {
                &&& r is Err
                &&& *final(self) == *old(self)
            },
    {
        if matches!(self.state, MidiSyncState::Stopped) {
            self.bpm = bpm;
            self.tpqn = match tpqn {
                Some(t) => t,
                None => DEFAULT_TPQN,
            };
            Ok(())
        } else {
            Err(String::from_str("update only valid in the Stopped state"))
        }
    }

    /// A cheap snapshot of the state.
    pub fn state(&self) -> (r: MidiSyncState)
        ensures
            r == self.state,
    {
        match &self.state {
            MidiSyncState::Stopped => MidiSyncState::Stopped,
            MidiSyncState::Starting => MidiSyncState::Starting,
            MidiSyncState::Running => MidiSyncState::Running,
            MidiSyncState::Error(m) => MidiSyncState::Error(m.clone()),
        }
    }
}

/// The state a `stop` request leaves behind: `Stopped`, except that a
/// latched error stays visible.
pub open spec fn spec_stop_state(s: MidiSyncState) -> MidiSyncState {
    match s {
        MidiSyncState::Error(m) => MidiSyncState::Error(m),
        _ => MidiSyncState::Stopped,
    }
}

/// The period in nanoseconds: one minute over `bpm * tpqn`.
pub fn period_of(bpm: u64, tpqn: u64) -> (r: u64)
    requires
        timing_valid(bpm, tpqn),
    ensures
        r == spec_period_nanos(bpm, tpqn),
        1 <= r <= MINUTE_NANOS,
{
    proof {
        assert(1 <= bpm * tpqn) by (nonlinear_arith)
            requires
                1 <= bpm,
                1 <= tpqn,
        ;
        assert(MINUTE_NANOS as int / (bpm * tpqn) as int >= 1) by (nonlinear_arith)
            requires
                1 <= bpm * tpqn <= MINUTE_NANOS,
        ;
        assert(MINUTE_NANOS as int / (bpm * tpqn) as int <= MINUTE_NANOS) by (nonlinear_arith)
            requires
                1 <= bpm * tpqn,
        ;
    }
    MINUTE_NANOS / (bpm * tpqn)
}

/// Drift-free cadence: in `Running` the schedule is pinned to the anchor —
/// the next Clock instant is the anchor plus exactly one period per Clock
/// already emitted, so successive scheduled instants differ by exactly
/// `60s / (bpm * tpqn)` and no error accumulates over any number of
/// emissions.
pub proof fn lemma_drift_free_cadence(g: MidiSync)
    requires
        g.wf(),
        g.state is Running,
    ensures
        g.next_clk.unwrap().nanos == g.start_time.unwrap().nanos + g.clocks@ * g.spec_period(),
{
}

/// Each run of an armed generator at or past its anchor puts exactly one
/// Start byte on the wire, and it comes before every Clock byte of that
/// batch.
pub proof fn lemma_one_start_before_clocks(emit: Seq<u8>, k: nat)
    requires
        emit =~= seq![MIDI_START] + Seq::new(k, |i: int| MIDI_CLOCK),
    ensures
        emit.len() == 1 + k,
        emit[0] == MIDI_START,
        forall|i: int| 1 <= i < emit.len() ==> emit[i] == MIDI_CLOCK,
        forall|i: int| 1 <= i < emit.len() ==> emit[i] != MIDI_START,
{
}

/// Any number of generators handed the same anchor and tempo produce tick
/// streams in phase: after the same number of Clock emissions their next
/// scheduled instants coincide, whatever jitter their callers' scheduling
/// had.
pub proof fn lemma_shared_anchor_alignment(a: MidiSync, b: MidiSync)
    requires
        a.wf(),
        b.wf(),
        a.state is Running,
        b.state is Running,
        a.start_time == b.start_time,
        a.bpm == b.bpm,
        a.tpqn == b.tpqn,
        a.clocks@ == b.clocks@,
    ensures
        a.next_clk == b.next_clk,
{
}

/// Stopping is idempotent: however many times `stop` is requested, and
/// whatever state the generator was in, the state after is `Stopped` — or a
/// latched `Error` — and each request puts a Stop byte on the wire.
pub proof fn lemma_stop_idempotent(s: MidiSyncState)
    ensures
        spec_stop_state(spec_stop_state(s)) == spec_stop_state(s),
        spec_stop_state(s) is Stopped || spec_stop_state(s) is Error,
{
}

} // verus!
