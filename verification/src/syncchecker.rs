//! The sync-checker measurement engine: timestamps incoming clock bytes
//! against the program clock and derives short-window and long-window tempo
//! estimates.
//!
//! A checker client owns the receiving end of a queue; the caller owns the
//! virtual MIDI input whose callback parses the bytes and feeds the queue
//! with `(program time, message)` pairs.

use vstd::prelude::*;
use crate::bus::channel_try_recv;
use crate::circularbuffer::{ring_push, CircularBuffer};
use crate::midimessages::MidiRealtimeMessage;
use crate::programclock::ProgramTime;

verus! {

/// A message as queued by the input callback: the program-clock instant of
/// reception paired with the parsed message (which carries the driver's
/// own microsecond timestamp).
pub type TimedMessage = (ProgramTime, MidiRealtimeMessage);

/// The same instant on both clocks: program time and the driver's
/// microsecond timestamp.
#[derive(Debug, Clone, Copy, PartialEq, Eq, Structural)]
pub struct DoubleTime(pub ProgramTime, pub u64);

/// Where the incoming stream stands.  `Started`'s payload is the anchor:
/// unset until the first Clock after a Start, which captures both clocks'
/// readings at that instant for two-clock drift measurement.
#[derive(Debug, Clone, Copy, PartialEq, Eq, Structural)]
pub enum ClientState {
    Stopped,
    Started(Option<DoubleTime>),
}

/// One virtual-input client of the sync checker.
pub struct MidiSyncClient {
    pub rx: crossbeam_channel::Receiver<TimedMessage>,
    pub last_rcv: Option<DoubleTime>,
    pub history: CircularBuffer<u64>,
    pub tpqn: u64,
    pub state: ClientState,
    pub total_ticks: u64,
    pub id: i32,
}

/// What the UI shows for one checker client.  Tempos and quarters are in
/// thousandths (milli-BPM, milli-quarters).
pub struct MidiSyncDisplay {
    pub state: ClientState,
    pub id: i32,
    pub bpm_overall: u64,
    pub bpm_recent: u64,
    pub has_clock: bool,
    pub total_quarters: u64,
}

/// How one received message changes a checker client.  Clocks while
/// started are recorded — the first one after a Start also becomes the
/// anchor, and only the later ones count as tick intervals; a Start from
/// `Stopped` clears the window; a Stop ends the stream and is idempotent;
/// any other pairing is unexpected and changes nothing.
pub open spec fn spec_step(
    pre: MidiSyncClient,
    time: ProgramTime,
    msg: MidiRealtimeMessage,
    post: MidiSyncClient,
) -> bool {
    &&& post.rx == pre.rx
    &&& post.tpqn == pre.tpqn
    &&& post.id == pre.id
    &&& post.history.spec_capacity() == pre.history.spec_capacity()
    &&& match (pre.state, msg) {
        (ClientState::Started(anchor), MidiRealtimeMessage::MidiClock(t)) => {
            &&& post.last_rcv == Some(DoubleTime(time, t))
            &&& post.history@ =~= ring_push(pre.history@, pre.history.spec_capacity(), t)
            &&& match anchor {
                Some(_) => {
                    &&& post.state == pre.state
                    &&& post.total_ticks == if pre.total_ticks < u64::MAX {
                        pre.total_ticks + 1
                    } else {
                        u64::MAX as int
                    }
                },
                None => {
                    &&& post.state == ClientState::Started(Some(DoubleTime(time, t)))
                    &&& post.total_ticks == pre.total_ticks
                },
            }
        },
        (ClientState::Stopped, MidiRealtimeMessage::MidiStart(_)) => {
            &&& post.state == ClientState::Started(None)
            &&& post.history@ =~= Seq::<u64>::empty()
            &&& post.total_ticks == 0
            &&& post.last_rcv == pre.last_rcv
        },
        (ClientState::Started(_), MidiRealtimeMessage::MidiStop(_)) => {
            &&& post.state is Stopped
            &&& post.history@ =~= pre.history@
            &&& post.total_ticks == pre.total_ticks
            &&& post.last_rcv == pre.last_rcv
        },
        _ => post == pre,
    }
}

/// `spec_step` folded over a sequence of received messages, oldest first.
pub open spec fn spec_run(
    pre: MidiSyncClient,
    msgs: Seq<TimedMessage>,
    post: MidiSyncClient,
) -> bool
    decreases msgs.len(),
{
    if msgs.len() == 0 {
        post == pre
    } else {
        exists|mid: MidiSyncClient|
            #[trigger] spec_step(pre, msgs[0].0, msgs[0].1, mid) && spec_run(
                mid,
                msgs.skip(1),
                post,
            )
    }
}

/// Extending a run by one message at its end.
pub proof fn lemma_run_snoc(
    pre: MidiSyncClient,
    msgs: Seq<TimedMessage>,
    mid: MidiSyncClient,
    time: ProgramTime,
    msg: MidiRealtimeMessage,
    post: MidiSyncClient,
)
    requires
        spec_run(pre, msgs, mid),
        spec_step(mid, time, msg, post),
    ensures
        spec_run(pre, msgs.push((time, msg)), post),
    decreases msgs.len(),
{
    if msgs.len() == 0 {
        assert(mid == pre);
        assert(msgs.push((time, msg)).skip(1) =~= Seq::<TimedMessage>::empty());
        assert(spec_run(post, msgs.push((time, msg)).skip(1), post));
        assert(spec_step(pre, msgs.push((time, msg))[0].0, msgs.push((time, msg))[0].1, post));
    } else {
        let step_mid = choose|m: MidiSyncClient|
            #[trigger] spec_step(pre, msgs[0].0, msgs[0].1, m) && spec_run(
                m,
                msgs.skip(1),
                mid,
            );
        lemma_run_snoc(step_mid, msgs.skip(1), mid, time, msg, post);
        assert(msgs.push((time, msg)).skip(1) =~= msgs.skip(1).push((time, msg)));
        assert(spec_step(pre, msgs.push((time, msg))[0].0, msgs.push((time, msg))[0].1, step_mid));
    }
}

/// The long-window estimate in milli-BPM: one minute over the mean tick
/// interval times ticks per quarter, from the driver timestamps of the
/// anchor and the last clock.  Zero when no anchor is set, no interval has
/// elapsed, or the timestamps are degenerate; saturates at the largest
/// representable value.
pub open spec fn spec_bpm_overall(c: MidiSyncClient) -> int {
    match (c.state, c.last_rcv) {
        (ClientState::Started(Some(anchor)), Some(last)) => {
            if c.total_ticks >= 1 && last.1 > anchor.1 {
                let v = 60_000_000_000 * c.total_ticks as int / ((last.1 - anchor.1)
                    * c.tpqn as int);
                if v > u64::MAX as int {
                    u64::MAX as int
                } else {
                    v
                }
            } else {
                0
            }
        },
        _ => 0,
    }
}

/// The short-window estimate in milli-BPM, over the ring of recent driver
/// timestamps: one minute over the mean interval of the window times ticks
/// per quarter.  Zero with fewer than two samples or degenerate timestamps;
/// saturates at the largest representable value.
pub open spec fn spec_bpm_recent(c: MidiSyncClient) -> int {
    let h = c.history@;
    if h.len() >= 2 && h.last() > h[0] {
        let v = 60_000_000_000 * (h.len() - 1) / ((h.last() - h[0]) * c.tpqn as int);
        if v > u64::MAX as int {
            u64::MAX as int
        } else {
            v
        }
    } else {
        0
    }
}

impl MidiSyncClient {
    /// Structural invariant: a positive ticks-per-quarter and a well-formed
    /// ring.
    pub open spec fn wf(&self) -> bool {
        &&& 1 <= self.tpqn
        &&& self.history.wf()
    }

    /// A fresh client in `Stopped`, reading from the given queue and
    /// keeping the most recent `history_size` driver timestamps.
    pub fn new(
        history_size: usize,
        tpqn: u64,
        id: i32,
        rx: crossbeam_channel::Receiver<TimedMessage>,
    ) -> (r: MidiSyncClient)
        requires
            1 <= tpqn,
        ensures
            r.wf(),
            r.state is Stopped,
            r.tpqn == tpqn,
            r.id == id,
            r.total_ticks == 0,
            r.last_rcv is None,
            r.history@ =~= Seq::<u64>::empty(),
            r.history.spec_capacity() == history_size,
            r.rx == rx,
    {
        MidiSyncClient {
            rx,
            last_rcv: None,
            history: CircularBuffer::new(history_size),
            tpqn,
            state: ClientState::Stopped,
            total_ticks: 0,
            id,
        }
    }

    /// Apply one received message to the state machine.
    pub fn handle_message(&mut self, time: ProgramTime, msg: MidiRealtimeMessage)
        requires
            old(self).wf(),
        ensures
            final(self).wf(),
            spec_step(*old(self), time, msg, *final(self)),
    {
        match (&self.state, msg) {
            (ClientState::Started(Some(_)), MidiRealtimeMessage::MidiClock(t)) => {
                self.last_rcv = Some(DoubleTime(time, t));
                self.history.add(t);
                self.total_ticks = if self.total_ticks < u64::MAX {
                    self.total_ticks + 1
                } else {
                    u64::MAX
                };
            },
            (ClientState::Started(None), MidiRealtimeMessage::MidiClock(t)) => {
                self.last_rcv = Some(DoubleTime(time, t));
                self.history.add(t);
                self.state = ClientState::Started(Some(DoubleTime(time, t)));
            },
            (ClientState::Stopped, MidiRealtimeMessage::MidiStart(_)) => {
                self.state = ClientState::Started(None);
                self.history.clear();
                self.total_ticks = 0;
            },
            (ClientState::Started(_), MidiRealtimeMessage::MidiStop(_)) => {
                self.state = ClientState::Stopped;
            },
            _ => {},
        }
    }

    /// Drain the queue, bounded work per pass, and run every received
    /// message through the state machine.  Returns, as ghost data, the
    /// messages processed, in order.
    pub fn run(&mut self) -> (r: Ghost<Seq<TimedMessage>>)
        requires
            old(self).wf(),
        ensures
            final(self).wf(),
            spec_run(*old(self), r@, *final(self)),
    {
        let ghost mut msgs: Seq<TimedMessage> = Seq::empty();
        let mut budget: usize = 1024;
        while budget > 0
            invariant
                self.wf(),
                spec_run(*old(self), msgs, *self),
            decreases budget,
        {
            budget = budget - 1;
            match channel_try_recv(&self.rx) {
                Some((time, msg)) => {
                    let ghost pre = *self;
                    self.handle_message(time, msg);
                    proof {
                        lemma_run_snoc(*old(self), msgs, pre, time, msg, *self);
                        msgs = msgs.push((time, msg));
                    }
                },
                None => {
                    budget = 0;
                },
            }
        }
        Ghost(msgs)
    }

    /// The long-window tempo estimate, in milli-BPM.
    pub fn bpm_overall(&self) -> (r: u64)
        requires
            self.wf(),
        ensures
            r == spec_bpm_overall(*self),
    {
        let (anchor, last) = match (&self.state, &self.last_rcv) {
            (ClientState::Started(Some(anchor)), Some(last)) => (*anchor, *last),
            _ => {
                return 0;
            },
        };
        if self.total_ticks < 1 || last.1 <= anchor.1 {
            return 0;
        }
        let span = last.1 - anchor.1;
        proof {
            assert((span as int) * (self.tpqn as int) <= (u64::MAX as int) * (u64::MAX as int))
                by (nonlinear_arith)
                requires
                    span <= u64::MAX,
                    self.tpqn <= u64::MAX,
            ;
            assert((span as int) * (self.tpqn as int) >= 1) by (nonlinear_arith)
                requires
                    1 <= span,
                    1 <= self.tpqn,
            ;
        }
        let num: u128 = 60_000_000_000u128 * (self.total_ticks as u128);
        let den: u128 = (span as u128) * (self.tpqn as u128);
        let v = num / den;
        if v > u64::MAX as u128 {
            u64::MAX
        } else {
            v as u64
        }
    }

    /// The short-window tempo estimate over the recent ring, in milli-BPM.
    pub fn bpm_recent(&self) -> (r: u64)
        requires
            self.wf(),
        ensures
            r == spec_bpm_recent(*self),
    {
        let buf = self.history.get_buf();
        let len = buf.len();
        if len < 2 {
            return 0;
        }
        let first = buf[0];
        let last = buf[len - 1];
        if last <= first {
            return 0;
        }
        let span = last - first;
        proof {
            assert((span as int) * (self.tpqn as int) <= (u64::MAX as int) * (u64::MAX as int))
                by (nonlinear_arith)
                requires
                    span <= u64::MAX,
                    self.tpqn <= u64::MAX,
            ;
            assert((span as int) * (self.tpqn as int) >= 1) by (nonlinear_arith)
                requires
                    1 <= span,
                    1 <= self.tpqn,
            ;
        }
        let num: u128 = 60_000_000_000u128 * ((len - 1) as u128);
        let den: u128 = (span as u128) * (self.tpqn as u128);
        let v = num / den;
        if v > u64::MAX as u128 {
            u64::MAX
        } else {
            v as u64
        }
    }

    /// The display projection: state, both tempo estimates, liveness of the
    /// clock stream, and total quarters heard — counting the Start as the
    /// first beat, hence the extra tick.
    pub fn display(&self, now: ProgramTime) -> (r: MidiSyncDisplay)
        requires
            self.wf(),
        ensures
            r.state == self.state,
            r.id == self.id,
            r.bpm_overall == spec_bpm_overall(*self),
            r.bpm_recent == spec_bpm_recent(*self),
            r.has_clock == match self.last_rcv {
                Some(last) => now.nanos <= last.0.nanos || now.nanos - last.0.nanos
                    < 1_000_000_000,
                None => false,
            },
            r.total_quarters == {
                let v = (self.total_ticks + 1) * 1000 / self.tpqn as int;
                if v > u64::MAX as int {
                    u64::MAX as int
                } else {
                    v
                }
            },
    {
        let has_clock = match &self.last_rcv {
            Some(last) => now.nanos <= last.0.nanos || now.nanos - last.0.nanos < 1_000_000_000,
            None => false,
        };
        let q: u128 = ((self.total_ticks as u128) + 1) * 1000 / (self.tpqn as u128);
        let total_quarters = if q > u64::MAX as u128 {
            u64::MAX
        } else {
            q as u64
        };
        MidiSyncDisplay {
            state: self.state,
            id: self.id,
            bpm_overall: self.bpm_overall(),
            bpm_recent: self.bpm_recent(),
            has_clock,
            total_quarters,
        }
    }
}

} // verus!
