//! The multi-port coordinator: master state, per-port child generators,
//! port discovery, command processing, event publishing, quantum alignment
//! and display snapshots.
//!
//! The coordinator decides; the caller that owns the MIDI driver performs.
//! Each pass hands back `PortAction`s — bytes to put on a port's wire,
//! connections to open or close — and the caller reports what could not be
//! delivered, which latches the affected generator's error.

use vstd::prelude::*;
use vstd::arithmetic::div_mod::{lemma_fundamental_div_mod, lemma_mod_multiples_basic};
use vstd::arithmetic::mul::lemma_mul_is_distributive_sub_other_way;
use crate::bus::{
    channel_new, channel_try_recv, channel_try_send, prune_disconnected, lemma_prune_snoc,
    SendOutcome,
};
use crate::midimessages::MIDI_STOP;
use crate::midisync::{
    spec_stop_state, spec_tpqn_or_default, timing_valid, MidiSync, MidiSyncState, MINUTE_NANOS,
};
use crate::programclock::{ProgramTime, MAX_PROGRAM_NANOS};

verus! {

/// The delay between a Start command and the chosen anchor, giving drivers
/// time to flush before bar zero.
pub const START_DELAY_NANOS: u64 = 100_000_000;

/// Largest quantum (in quarter notes) whose length in nanoseconds still
/// fits the grid arithmetic: one minute of nanoseconds times the quantum
/// must fit a u64.
pub const MAX_QUANTUM: u64 = u64::MAX / MINUTE_NANOS;

/// Most commands drained in one coordinator pass, keeping the work per pass
/// bounded; the rest wait for the next pass.
pub const CMD_BUDGET: usize = 128;

/// Shared tempo and grid parameters, carried by value on every broadcast.
#[derive(Clone, Copy, Debug, PartialEq, Eq, Structural)]
pub struct Settings {
    /// Beats (quarter notes) per minute.
    pub bpm: u64,
    /// Length of the shared grid in quarter notes.
    pub quantum: u64,
    /// Ticks per quarter note; 24 when absent.
    pub tpqn: Option<u64>,
}

/// The range of settings the coordinator accepts: musical bounds on tempo
/// and grid, and tempo parameters the period arithmetic is defined for.
pub open spec fn spec_settings_valid(s: Settings) -> bool {
    &&& 60 <= s.bpm <= 300
    &&& 1 <= s.quantum <= MAX_QUANTUM
    &&& timing_valid(s.bpm, spec_tpqn_or_default(s.tpqn))
}

/// One quantum of the master grid in nanoseconds: `60s / bpm * quantum`.
pub open spec fn spec_quantum_nanos(s: Settings) -> int {
    MINUTE_NANOS as int * s.quantum as int / s.bpm as int
}

/// `r` is the next grid instant for anchor `start` seen at `current`:
/// `start` itself while `current` has not passed it, and otherwise the
/// smallest `start + k * Q` with `k >= 1` that is at or past `current`.
pub open spec fn spec_is_next_quantum(
    s: Settings,
    start: ProgramTime,
    current: ProgramTime,
    r: ProgramTime,
) -> bool {
    if current.nanos <= start.nanos {
        r == start
    } else {
        let q = spec_quantum_nanos(s);
        &&& r.nanos > start.nanos
        &&& (r.nanos - start.nanos) % q == 0
        &&& r.nanos >= current.nanos
        &&& r.nanos - q < current.nanos
    }
}

impl Settings {
    pub fn new(bpm: u64, quantum: u64, tpqn: Option<u64>) -> (r: Settings)
        ensures
            r == (Settings { bpm, quantum, tpqn }),
    {
        Settings { bpm, quantum, tpqn }
    }

    pub fn is_valid(&self) -> (r: bool)
        ensures
            r == spec_settings_valid(*self),
    {
        let mut valid = true;
        if self.bpm < 60 || self.bpm > 300 {
            valid = false;
        }
        if self.quantum < 1 || self.quantum > MAX_QUANTUM {
            valid = false;
        }
        let tpqn = match self.tpqn {
            Some(t) => t,
            None => crate::midisync::DEFAULT_TPQN,
        };
        if tpqn < 1 {
            valid = false;
        }
        proof {
            assert((self.bpm as int) * (tpqn as int) <= (u64::MAX as int) * (u64::MAX as int))
                by (nonlinear_arith)
                requires
                    self.bpm <= u64::MAX,
                    tpqn <= u64::MAX,
            ;
        }
        if (self.bpm as u128) * (tpqn as u128) > (MINUTE_NANOS as u128) {
            valid = false;
        }
        valid
    }

    /// The quantum length in nanoseconds.
    pub fn quantum_nanos(&self) -> (r: u64)
        requires
            spec_settings_valid(*self),
        ensures
            r == spec_quantum_nanos(*self),
            200_000_000 <= r <= 0x444_4444_22C7_7C00u64,
    {
        proof {
            assert(MINUTE_NANOS as int * self.quantum as int / self.bpm as int >= 200_000_000)
                by (nonlinear_arith)
                requires
                    1 <= self.quantum,
                    60 <= self.bpm <= 300,
            ;
            assert(MINUTE_NANOS * self.quantum <= MINUTE_NANOS * MAX_QUANTUM)
                by (nonlinear_arith)
                requires
                    self.quantum <= MAX_QUANTUM,
            ;
            assert(MINUTE_NANOS * MAX_QUANTUM <= u64::MAX) by (nonlinear_arith)
                requires
                    MAX_QUANTUM == u64::MAX / MINUTE_NANOS,
            ;
            assert(MINUTE_NANOS as int * self.quantum as int / self.bpm as int
                <= MINUTE_NANOS as int * self.quantum as int / 60) by (nonlinear_arith)
                requires
                    60 <= self.bpm,
                    0 <= MINUTE_NANOS * self.quantum,
            ;
            assert(MINUTE_NANOS as int * self.quantum as int / 60
                <= MINUTE_NANOS as int * MAX_QUANTUM as int / 60) by (nonlinear_arith)
                requires
                    MINUTE_NANOS * self.quantum <= MINUTE_NANOS * MAX_QUANTUM,
            ;
            assert(MINUTE_NANOS as int * self.quantum as int / self.bpm as int >= 1)
                by (nonlinear_arith)
                requires
                    1 <= self.quantum,
                    60 <= self.bpm <= 300,
            ;
        }
        MINUTE_NANOS * self.quantum / self.bpm
    }

    /// The next instant of the master grid: `start` itself while `current`
    /// has not passed it, and otherwise the earliest grid point
    /// `start + k * Q` (with `k >= 1`) that `current` has not passed.  A
    /// port started at this instant joins on-bar with every other port.
    pub fn next_quantum(&self, start: ProgramTime, current: ProgramTime) -> (r: ProgramTime)
        requires
            spec_settings_valid(*self),
            current.nanos <= MAX_PROGRAM_NANOS,
        ensures
            spec_is_next_quantum(*self, start, current, r),
    {
        if current.nanos <= start.nanos {
            return start;
        }
        let q = self.quantum_nanos();
        let runtime = current.nanos - start.nanos;
        let k = (runtime + q - 1) / q;
        proof {
            let rt = runtime as int;
            let qi = q as int;
            lemma_fundamental_div_mod(rt + qi - 1, qi);
            let ki = (rt + qi - 1) / qi;
            let m = (rt + qi - 1) % qi;
            assert(0 <= m < qi);
            assert(qi * ki == rt + qi - 1 - m);
            assert(ki * qi == qi * ki) by (nonlinear_arith);
            assert(ki * qi >= rt);
            assert(ki * qi <= rt + qi - 1);
            assert(ki >= 1) by (nonlinear_arith)
                requires
                    qi * ki >= rt,
                    rt >= 1,
                    qi >= 1,
                    ki == (rt + qi - 1) / qi,
                    qi * ki == rt + qi - 1 - m,
                    0 <= m,
            ;
            assert(ki * qi <= rt + qi);
            lemma_mod_multiples_basic(ki, qi);
        }
        let r = ProgramTime { nanos: start.nanos + k * q };
        proof {
            lemma_mul_is_distributive_sub_other_way(q as int, k as int, 1);
        }
        r
    }

    /// Elapsed quantums of the grid since `start`, in thousandths of a
    /// quantum; zero while `current` has not passed `start`.
    pub fn quantum(&self, start: ProgramTime, current: ProgramTime) -> (r: u64)
        requires
            spec_settings_valid(*self),
            current.nanos <= MAX_PROGRAM_NANOS,
        ensures
            current.nanos <= start.nanos ==> r == 0,
            current.nanos > start.nanos ==> r == (current.nanos - start.nanos) * 1000
                / spec_quantum_nanos(*self),
    {
        if current.nanos <= start.nanos {
            return 0;
        }
        let q = self.quantum_nanos();
        let runtime = current.nanos - start.nanos;
        let scaled = (runtime as u128) * 1000 / (q as u128);
        proof {
            assert((runtime as int) * 1000 / (q as int) <= (MAX_PROGRAM_NANOS as int) * 1000
                / 200_000_000) by (nonlinear_arith)
                requires
                    200_000_000 <= q,
                    0 <= runtime <= MAX_PROGRAM_NANOS,
            ;
        }
        scaled as u64
    }

    /// Elapsed quarter notes since `start`, in thousandths of a quarter;
    /// zero while `current` has not passed `start`.
    pub fn get_quarter(&self, start: ProgramTime, current: ProgramTime) -> (r: u64)
        requires
            spec_settings_valid(*self),
            current.nanos <= MAX_PROGRAM_NANOS,
        ensures
            current.nanos <= start.nanos ==> r == 0,
            current.nanos > start.nanos ==> r == (current.nanos - start.nanos) * 1000
                / (MINUTE_NANOS as int / self.bpm as int),
    {
        if current.nanos <= start.nanos {
            return 0;
        }
        let quarter = MINUTE_NANOS / self.bpm;
        proof {
            assert(MINUTE_NANOS as int / self.bpm as int >= 200_000_000) by (nonlinear_arith)
                requires
                    60 <= self.bpm <= 300,
            ;
        }
        let runtime = current.nanos - start.nanos;
        let scaled = (runtime as u128) * 1000 / (quarter as u128);
        proof {
            assert((runtime as int) * 1000 / (quarter as int) <= (MAX_PROGRAM_NANOS as int)
                * 1000 / 200_000_000) by (nonlinear_arith)
                requires
                    200_000_000 <= quarter,
                    0 <= runtime <= MAX_PROGRAM_NANOS,
            ;
        }
        scaled as u64
    }
}

/// Master transport state; `Started` carries the anchor, the instant bar
/// zero begins.
#[derive(Clone, Copy, Debug, PartialEq, Eq, Structural)]
pub enum MultiSyncState {
    Stopped,
    Started(ProgramTime),
}

impl MultiSyncState {
    /// The state an explicit transition leaves behind.
    pub fn transition(&self, new_state: MultiSyncState) -> (r: Self)
        ensures
            r == new_state,
    {
        new_state
    }
}

/// A discovered MIDI output port: the driver's stable opaque identifier and
/// its (mutable, driver-provided) display name.  Identity is the identifier;
/// names may change while handles stay stable within a session.
#[derive(Clone, Debug)]
pub struct PortInfo {
    pub id: String,
    pub name: String,
}

impl PortInfo {
    /// An exact copy.
    pub fn duplicate(&self) -> (r: PortInfo)
        ensures
            r == *self,
    {
        PortInfo { id: self.id.clone(), name: self.name.clone() }
    }

    /// Ports are the same exactly when the driver identifiers agree.
    pub fn same_port(&self, other: &PortInfo) -> (r: bool)
        ensures
            r == (self.id@ == other.id@),
    {
        self.id == other.id
    }
}

/// One row of a display snapshot: a port and, if a generator is attached,
/// its state.
#[derive(Clone, Debug)]
pub struct PortDisplay {
    pub info: PortInfo,
    pub state: Option<MidiSyncState>,
}

/// An immutable snapshot of the coordinator, published to listeners;
/// authoritative over any prior snapshot.
#[derive(Clone, Debug)]
pub struct MultiSyncDisplay {
    pub state: MultiSyncState,
    pub settings: Settings,
    pub ports: Vec<PortDisplay>,
}

impl Default for MultiSyncDisplay {
    fn default() -> (r: Self)
        ensures
            r.state is Stopped,
            r.settings == (Settings { bpm: 130, quantum: 4, tpqn: None }),
            r.ports@.len() == 0,
    {
        Self {
            state: MultiSyncState::Stopped,
            settings: Settings { bpm: 130, quantum: 4, tpqn: None },
            ports: Vec::new(),
        }
    }
}

/// The command surface of the coordinator.
pub enum MultiSyncCommand {
    Start,
    Stop,
    AddListener(crossbeam_channel::Sender<MultiSyncEvent>),
    AddSyncForPort(PortInfo),
    DelSyncForPort(PortInfo),
    UpdateSettings(Settings),
    StartPort(PortInfo),
    StopPort(PortInfo),
}

/// Events fanned out to every listener.
#[derive(Clone, Debug)]
pub enum MultiSyncEvent {
    Started(ProgramTime),
    Stopped,
    NewPorts(Vec<PortInfo>),
    SettingsUpdated(Settings),
    DisplayUpdate(MultiSyncDisplay),
}

/// What the caller must do to the MIDI driver after a coordinator pass.
pub enum PortAction {
    /// Send these bytes, in order, on the connection for this port.
    Emit { id: String, bytes: Vec<u8> },
    /// Open an output connection to this port, then report with
    /// `port_opened`.
    Open { info: PortInfo },
    /// Drop the connection for this port.
    Close { id: String },
}

/// The coordinator's end of the control bus: the command receiver and the
/// current listeners.
pub struct MultiSyncCtrl {
    pub listeners: Vec<crossbeam_channel::Sender<MultiSyncEvent>>,
    pub cmd: crossbeam_channel::Receiver<MultiSyncCommand>,
    /// Every event ever handed to `publish`, in order — the broadcast log,
    /// whether or not any listener kept a given event.
    pub events: Ghost<Seq<MultiSyncEvent>>,
}

impl MultiSyncCtrl {
    pub fn new() -> (r: (MultiSyncCtrl, crossbeam_channel::Sender<MultiSyncCommand>))
        ensures
            r.0.listeners@.len() == 0,
            r.0.events@ =~= Seq::<MultiSyncEvent>::empty(),
    {
        let (s_cmd, r_cmd) = channel_new();
        (
            MultiSyncCtrl { listeners: Vec::new(), cmd: r_cmd, events: Ghost(Seq::empty()) },
            s_cmd,
        )
    }

    /// Fan an event out to every listener without blocking, and prune the
    /// listeners whose channel reported itself disconnected.  Full-but-
    /// connected listeners stay subscribed (their message is simply lost).
    /// Returns, as ghost data, the outcome of each send in listener order.
    pub fn publish(&mut self, msg: MultiSyncEvent) -> (outcomes: Ghost<Seq<SendOutcome>>)
        ensures
            outcomes@.len() == old(self).listeners@.len(),
            final(self).listeners@ =~= prune_disconnected(old(self).listeners@, outcomes@),
            final(self).events@ =~= old(self).events@.push(msg),
            final(self).cmd == old(self).cmd,
    {
        self.events = Ghost(self.events@.push(msg));
        let ghost orig = self.listeners@;
        let mut kept: Vec<crossbeam_channel::Sender<MultiSyncEvent>> = Vec::new();
        let ghost mut outcomes: Seq<SendOutcome> = Seq::empty();
        proof {
            assert(orig.take(0) =~= Seq::<crossbeam_channel::Sender<MultiSyncEvent>>::empty());
            assert(orig.skip(0) =~= orig);
        }
        while self.listeners.len() > 0
            invariant
                outcomes.len() <= orig.len(),
                self.listeners@ =~= orig.skip(outcomes.len() as int),
                kept@ =~= prune_disconnected(orig.take(outcomes.len() as int), outcomes),
                self.events@ =~= old(self).events@.push(msg),
                self.cmd == old(self).cmd,
            decreases self.listeners@.len(),
        {
            let ghost i = outcomes.len() as int;
            let tx = self.listeners.remove(0);
            proof {
                assert(tx == orig[i]);
                assert(self.listeners@ =~= orig.skip(i + 1));
            }
            let oc = channel_try_send(&tx, msg.clone());
            proof {
                lemma_prune_snoc(orig.take(i), outcomes, orig[i], oc);
                assert(orig.take(i).push(orig[i]) =~= orig.take(i + 1));
            }
            if !matches!(oc, SendOutcome::Disconnected) {
                kept.push(tx);
            }
            proof {
                outcomes = outcomes.push(oc);
            }
        }
        proof {
            assert(outcomes.len() == orig.len());
            assert(orig.take(orig.len() as int) =~= orig);
        }
        self.listeners = kept;
        Ghost(outcomes)
    }

    /// Take one queued command if any is ready.  `AddListener` is
    /// intercepted here — the listener is recorded and never surfaces as a
    /// command — so the result is never `AddListener`.
    pub fn get_cmd(&mut self) -> (r: Option<MultiSyncCommand>)
        ensures
            !(r matches Some(MultiSyncCommand::AddListener(_))),
            final(self).events@ == old(self).events@,
            final(self).cmd == old(self).cmd,
            match r {
                Some(_) => final(self).listeners@ == old(self).listeners@,
                None => final(self).listeners@ == old(self).listeners@ || exists|
                    l: crossbeam_channel::Sender<MultiSyncEvent>,
                |
                    final(self).listeners@ == old(self).listeners@.push(l),
            },
    {
        match channel_try_recv(&self.cmd) {
            Some(MultiSyncCommand::AddListener(listener)) => {
                let ghost l = listener;
                self.listeners.push(listener);
                proof {
                    assert(self.listeners@ == old(self).listeners@.push(l));
                }
                None
            },
            x => x,
        }
    }
}

/// A discovered port and, when attached, the generator that clocks it.
pub struct MultiSyncMidiClient {
    pub info: PortInfo,
    pub sync: Option<MidiSync>,
}

impl MultiSyncMidiClient {
    pub open spec fn wf(&self) -> bool {
        match self.sync {
            Some(g) => g.wf(),
            None => true,
        }
    }

    /// The display row for this client.
    pub fn to_display(&self) -> (r: PortDisplay)
        ensures
            r.info == self.info,
            match self.sync {
                Some(g) => r.state == Some(g.state),
                None => r.state is None,
            },
    {
        PortDisplay {
            info: self.info.duplicate(),
            state: match &self.sync {
                Some(g) => Some(g.state()),
                None => None,
            },
        }
    }
}

/// Some client carries this port identifier.
pub open spec fn has_id(cs: Seq<MultiSyncMidiClient>, id: Seq<char>) -> bool {
    exists|i: int| 0 <= i < cs.len() && cs[i].info.id@ == id
}

/// Some discovered port carries this identifier.
pub open spec fn info_has_id(ps: Seq<PortInfo>, id: Seq<char>) -> bool {
    exists|i: int| 0 <= i < ps.len() && ps[i].id@ == id
}

/// No two clients claim the same port.
pub open spec fn ids_unique(cs: Seq<MultiSyncMidiClient>) -> bool {
    forall|i: int, j: int|
        0 <= i < j < cs.len() ==> cs[i].info.id@ != cs[j].info.id@
}

/// The clients that survive an enumeration: those whose port is still
/// reported, in their original order.
pub open spec fn spec_keep_found(
    cs: Seq<MultiSyncMidiClient>,
    found: Seq<PortInfo>,
) -> Seq<MultiSyncMidiClient> {
    cs.filter(|c: MultiSyncMidiClient| info_has_id(found, c.info.id@))
}

/// The newly discovered ports of an enumeration: reported ports that match
/// no current client, in report order, first occurrence of each identifier.
pub open spec fn spec_new_ports(
    found: Seq<PortInfo>,
    cs: Seq<MultiSyncMidiClient>,
) -> Seq<PortInfo>
    decreases found.len(),
{
    if found.len() == 0 {
        Seq::empty()
    } else {
        let rest = spec_new_ports(found.drop_last(), cs);
        let last = found.last();
        if has_id(cs, last.id@) || info_has_id(rest, last.id@) {
            rest
        } else {
            rest.push(last)
        }
    }
}

/// The client list after one enumeration diff: survivors in order, then a
/// fresh unattached client per newly discovered port.
pub open spec fn spec_port_diff(
    cs: Seq<MultiSyncMidiClient>,
    found: Seq<PortInfo>,
) -> Seq<MultiSyncMidiClient> {
    spec_keep_found(cs, found) + spec_new_ports(found, cs).map_values(
        |p: PortInfo| MultiSyncMidiClient { info: p, sync: None },
    )
}

/// A new port never resurrects an old client: when a client's port vanishes
/// from the enumeration and a port with a different identifier appears, the
/// diff drops the old client entirely and adds a distinct fresh one with no
/// generator — a re-plugged device under a new handle is a new client.
pub proof fn lemma_replug_is_fresh_client(
    cs: Seq<MultiSyncMidiClient>,
    found: Seq<PortInfo>,
    gone: Seq<char>,
    fresh: Seq<char>,
)
    requires
        has_id(cs, gone),
        !info_has_id(found, gone),
        info_has_id(found, fresh),
        !has_id(cs, fresh),
    ensures
        !has_id(spec_port_diff(cs, found), gone),
        exists|j: int|
            0 <= j < spec_port_diff(cs, found).len()
                && #[trigger] spec_port_diff(cs, found)[j].info.id@ == fresh
                && spec_port_diff(cs, found)[j].sync is None,
{
    let kept = spec_keep_found(cs, found);
    let news = spec_new_ports(found, cs);
    let diff = spec_port_diff(cs, found);
    lemma_new_ports_complete(found, cs, fresh);
    lemma_new_ports_sound(found, cs);
    assert forall|i: int| 0 <= i < diff.len() implies #[trigger] diff[i].info.id@ != gone by {
        if i < kept.len() {
            cs.filter_lemma(|c: MultiSyncMidiClient| info_has_id(found, c.info.id@));
            assert(kept.contains(kept[i]));
            assert(info_has_id(found, kept[i].info.id@));
        } else {
            let k = i - kept.len();
            assert(diff[i].info == news[k]);
            assert(info_has_id(found, news[k].id@));
        }
    }
    let j = choose|j: int| 0 <= j < news.len() && news[j].id@ == fresh;
    assert(diff[kept.len() + j].info.id@ == fresh);
    assert(diff[kept.len() + j].sync is None);
}

/// `d` is the display snapshot of the coordinator `ms`: its state and
/// settings by value, and one row per client with the attached generator's
/// state, if any.
pub open spec fn spec_display_of(ms: MultiSync, d: MultiSyncDisplay) -> bool {
    &&& d.state == ms.state
    &&& d.settings == ms.settings
    &&& d.ports@.len() == ms.clients@.len()
    &&& forall|i: int|
        0 <= i < ms.clients@.len() ==> {
            &&& (#[trigger] d.ports@[i]).info == ms.clients@[i].info
            &&& match ms.clients@[i].sync {
                Some(g) => d.ports@[i].state == Some(g.state),
                None => d.ports@[i].state is None,
            }
        }
}


/// Equality of two bus endpoints as far as contracts can see them: the
/// same listeners, the same command receiver, the same event log.
pub open spec fn ctrl_eq(a: MultiSyncCtrl, b: MultiSyncCtrl) -> bool {
    &&& a.listeners@ == b.listeners@
    &&& a.cmd == b.cmd
    &&& a.events@ == b.events@
}

/// Equality of two coordinator values on every field but the display dirty
/// bit.
pub open spec fn eq_but_changed(a: MultiSync, b: MultiSync) -> bool {
    &&& ctrl_eq(a.ctrl, b.ctrl)
    &&& a.clients == b.clients
    &&& a.settings == b.settings
    &&& a.state == b.state
    &&& a.last_update == b.last_update
    &&& a.last_port_update == b.last_port_update
}

/// The listeners `post` are the listeners `pre` after one fan-out pass:
/// some outcome per listener, with the disconnected ones pruned.
pub open spec fn spec_pruned(
    pre: Seq<crossbeam_channel::Sender<MultiSyncEvent>>,
    post: Seq<crossbeam_channel::Sender<MultiSyncEvent>>,
) -> bool {
    exists|oc: Seq<SendOutcome>|
        oc.len() == pre.len() && post =~= #[trigger] prune_disconnected(pre, oc)
}

/// `acts` is exactly one Emit per client with bytes due, in client order:
/// the client's own port identifier, carrying exactly those bytes.
pub open spec fn spec_emits_for(
    clients: Seq<MultiSyncMidiClient>,
    bytes: Seq<Seq<u8>>,
    acts: Seq<PortAction>,
) -> bool
    decreases clients.len(),
{
    if clients.len() == 0 {
        acts.len() == 0
    } else {
        let rest_c = clients.drop_last();
        let rest_b = bytes.drop_last();
        if bytes.last().len() > 0 {
            &&& acts.len() >= 1
            &&& (acts.last() matches PortAction::Emit { id, bytes: b } && id@
                == clients.last().info.id@ && b@ =~= bytes.last())
            &&& spec_emits_for(rest_c, rest_b, acts.drop_last())
        } else {
            spec_emits_for(rest_c, rest_b, acts)
        }
    }
}

/// One Stop byte per attached client, nothing for the others.
pub open spec fn spec_stop_bytes(clients: Seq<MultiSyncMidiClient>) -> Seq<Seq<u8>> {
    Seq::new(
        clients.len(),
        |i: int|
            if clients[i].sync is Some {
                seq![MIDI_STOP]
            } else {
                Seq::<u8>::empty()
            },
    )
}

/// The Close actions of a teardown: one per attached client, in order.
pub open spec fn spec_close_actions(clients: Seq<MultiSyncMidiClient>) -> Seq<PortAction>
    decreases clients.len(),
{
    if clients.len() == 0 {
        Seq::empty()
    } else {
        spec_close_actions(clients.drop_last()) + if clients.last().sync is Some {
            seq![PortAction::Close { id: clients.last().info.id }]
        } else {
            Seq::empty()
        }
    }
}

/// The driver actions of an enumeration diff: for each client whose port
/// vanished, in client order, a Stop byte if a generator was attached, then
/// the order to drop the connection.
pub open spec fn spec_removed_actions(
    clients: Seq<MultiSyncMidiClient>,
    found: Seq<PortInfo>,
    acts: Seq<PortAction>,
) -> bool
    decreases clients.len(),
{
    if clients.len() == 0 {
        acts.len() == 0
    } else {
        let c = clients.last();
        let rest = clients.drop_last();
        if info_has_id(found, c.info.id@) {
            spec_removed_actions(rest, found, acts)
        } else if c.sync is Some {
            &&& acts.len() >= 2
            &&& (acts[acts.len() - 2] matches PortAction::Emit { id, bytes } && id@
                == c.info.id@ && bytes@ =~= seq![MIDI_STOP])
            &&& acts.last() == PortAction::Close { id: c.info.id }
            &&& spec_removed_actions(rest, found, acts.take(acts.len() - 2))
        } else {
            &&& acts.len() >= 1
            &&& acts.last() == PortAction::Close { id: c.info.id }
            &&& spec_removed_actions(rest, found, acts.drop_last())
        }
    }
}

/// The anchor a Start command arms generators on: a moment past now when
/// the master was stopped, the next grid instant of the running timeline
/// otherwise.
pub open spec fn spec_start_anchor(
    state: MultiSyncState,
    settings: Settings,
    now: ProgramTime,
    t: ProgramTime,
) -> bool {
    match state {
        MultiSyncState::Stopped => t.nanos == now.nanos + START_DELAY_NANOS,
        MultiSyncState::Started(a) => spec_is_next_quantum(settings, a, now, t),
    }
}

/// What the AddSyncForPort command does: no state change; if the port is
/// known and unattached, one order to open its connection.
pub open spec fn spec_add_sync_rel(
    pre: MultiSync,
    port: PortInfo,
    post: MultiSync,
    acts: Seq<PortAction>,
) -> bool {
    &&& eq_but_changed(post, pre)
    &&& if exists|i: int|
        0 <= i < pre.clients@.len() && (#[trigger] pre.clients@[i]).info.id@ == port.id@
            && pre.clients@[i].sync is None {
        exists|i: int|
            {
                &&& 0 <= i < pre.clients@.len()
                &&& (#[trigger] pre.clients@[i]).info.id@ == port.id@
                &&& pre.clients@[i].sync is None
                &&& acts =~= seq![PortAction::Open { info: pre.clients@[i].info }]
            }
    } else {
        acts.len() == 0
    }
}

/// What the DelSyncForPort command does: detach the named generator if it
/// is attached and stopped or errored, and order its connection closed.
pub open spec fn spec_del_sync_rel(
    pre: MultiSync,
    port: PortInfo,
    post: MultiSync,
    acts: Seq<PortAction>,
) -> bool {
    &&& ctrl_eq(post.ctrl, pre.ctrl)
    &&& post.settings == pre.settings
    &&& post.state == pre.state
    &&& post.last_update == pre.last_update
    &&& post.last_port_update == pre.last_port_update
    &&& post.clients@.len() == pre.clients@.len()
    &&& if exists|i: int|
        {
            &&& 0 <= i < pre.clients@.len()
            &&& (#[trigger] pre.clients@[i]).info.id@ == port.id@
            &&& pre.clients@[i].sync is Some
            &&& (pre.clients@[i].sync.unwrap().state is Stopped || pre.clients@[i].sync.unwrap().state is Error)
        } {
        &&& forall|i: int|
            0 <= i < pre.clients@.len() ==> {
                if pre.clients@[i].info.id@ == port.id@ {
                    &&& (#[trigger] post.clients@[i]).info == pre.clients@[i].info
                    &&& post.clients@[i].sync is None
                } else {
                    #[trigger] post.clients@[i] == pre.clients@[i]
                }
            }
        &&& exists|i: int|
            {
                &&& 0 <= i < pre.clients@.len()
                &&& (#[trigger] pre.clients@[i]).info.id@ == port.id@
                &&& acts =~= seq![PortAction::Close { id: pre.clients@[i].info.id }]
            }
    } else {
        post.clients@ == pre.clients@ && acts.len() == 0
    }
}

/// What the UpdateSettings command does: while the master is stopped and
/// the settings are in range, replace them, retune every stopped generator,
/// and broadcast the change; otherwise nothing.
pub open spec fn spec_update_settings_rel(
    pre: MultiSync,
    s: Settings,
    post: MultiSync,
) -> bool {
    &&& post.state == pre.state
    &&& post.last_update == pre.last_update
    &&& post.last_port_update == pre.last_port_update
    &&& post.ctrl.cmd == pre.ctrl.cmd
    &&& if pre.state is Stopped && spec_settings_valid(s) {
        &&& post.settings == s
        &&& post.clients@.len() == pre.clients@.len()
        &&& forall|i: int|
            0 <= i < pre.clients@.len() ==> {
                &&& (#[trigger] post.clients@[i]).info == pre.clients@[i].info
                &&& (post.clients@[i].sync is Some <==> pre.clients@[i].sync is Some)
                &&& (pre.clients@[i].sync is Some ==> {
                    let og = pre.clients@[i].sync.unwrap();
                    let ng = post.clients@[i].sync.unwrap();
                    if og.state is Stopped {
                        &&& ng.bpm == s.bpm
                        &&& ng.tpqn == spec_tpqn_or_default(s.tpqn)
                        &&& ng.state == og.state
                        &&& ng.start_time == og.start_time
                        &&& ng.next_clk == og.next_clk
                    } else {
                        ng == og
                    }
                })
            }
        &&& post.ctrl.events@ =~= pre.ctrl.events@.push(MultiSyncEvent::SettingsUpdated(s))
        &&& spec_pruned(pre.ctrl.listeners@, post.ctrl.listeners@)
    } else {
        &&& post.settings == pre.settings
        &&& post.clients == pre.clients
        &&& ctrl_eq(post.ctrl, pre.ctrl)
    }
}

/// What the Start command does: pick the anchor — a fresh one when the
/// master was stopped, the next grid instant otherwise — and arm every
/// stopped generator on it.
pub open spec fn spec_start_rel(pre: MultiSync, now: ProgramTime, post: MultiSync) -> bool {
    &&& ctrl_eq(post.ctrl, pre.ctrl)
    &&& post.settings == pre.settings
    &&& post.last_update == pre.last_update
    &&& post.last_port_update == pre.last_port_update
    &&& post.clients@.len() == pre.clients@.len()
    &&& exists|t: ProgramTime|
        {
            &&& #[trigger] spec_start_anchor(pre.state, pre.settings, now, t)
            &&& match pre.state {
                MultiSyncState::Stopped => post.state == MultiSyncState::Started(t),
                MultiSyncState::Started(_) => post.state == pre.state,
            }
            &&& forall|i: int|
                0 <= i < pre.clients@.len() ==> {
                    &&& (#[trigger] post.clients@[i]).info == pre.clients@[i].info
                    &&& (post.clients@[i].sync is Some <==> pre.clients@[i].sync is Some)
                    &&& (pre.clients@[i].sync is Some ==> {
                        let og = pre.clients@[i].sync.unwrap();
                        let ng = post.clients@[i].sync.unwrap();
                        if og.state is Stopped {
                            &&& ng.state is Starting
                            &&& ng.start_time == Some(t)
                            &&& ng.next_clk == Some(t)
                            &&& ng.bpm == og.bpm
                            &&& ng.tpqn == og.tpqn
                        } else {
                            ng == og
                        }
                    })
                }
        }
}

/// What the Stop command does: every generator is stopped whatever its
/// state — one Stop byte ordered per attached port — and the master stops.
pub open spec fn spec_stop_rel(pre: MultiSync, post: MultiSync, acts: Seq<PortAction>) -> bool {
    &&& ctrl_eq(post.ctrl, pre.ctrl)
    &&& post.settings == pre.settings
    &&& post.last_update == pre.last_update
    &&& post.last_port_update == pre.last_port_update
    &&& post.state is Stopped
    &&& post.clients@.len() == pre.clients@.len()
    &&& forall|i: int|
        0 <= i < pre.clients@.len() ==> {
            &&& (#[trigger] post.clients@[i]).info == pre.clients@[i].info
            &&& (post.clients@[i].sync is Some <==> pre.clients@[i].sync is Some)
            &&& (pre.clients@[i].sync is Some ==> {
                let og = pre.clients@[i].sync.unwrap();
                let ng = post.clients@[i].sync.unwrap();
                &&& ng.state == spec_stop_state(og.state)
                &&& ng.start_time is None
                &&& ng.next_clk is None
                &&& ng.bpm == og.bpm
                &&& ng.tpqn == og.tpqn
                &&& ng.wire@ =~= og.wire@.push(MIDI_STOP)
            })
        }
    &&& spec_emits_for(pre.clients@, spec_stop_bytes(pre.clients@), acts)
}

/// What the StartPort command does: while the master runs, arm the named
/// attached generator on the next grid instant.
pub open spec fn spec_start_port_rel(
    pre: MultiSync,
    port: PortInfo,
    now: ProgramTime,
    post: MultiSync,
) -> bool {
    &&& ctrl_eq(post.ctrl, pre.ctrl)
    &&& post.settings == pre.settings
    &&& post.state == pre.state
    &&& post.last_update == pre.last_update
    &&& post.last_port_update == pre.last_port_update
    &&& if pre.state is Started && exists|i: int|
        0 <= i < pre.clients@.len() && (#[trigger] pre.clients@[i]).info.id@ == port.id@
            && pre.clients@[i].sync is Some {
        &&& post.clients@.len() == pre.clients@.len()
        &&& exists|t: ProgramTime|
            {
                &&& #[trigger] spec_is_next_quantum(
                    pre.settings,
                    pre.state->Started_0,
                    now,
                    t,
                )
                &&& forall|i: int|
                    0 <= i < pre.clients@.len() ==> {
                        if pre.clients@[i].info.id@ == port.id@ && pre.clients@[i].sync
                            is Some {
                            let og = pre.clients@[i].sync.unwrap();
                            let ng = (#[trigger] post.clients@[i]).sync.unwrap();
                            &&& post.clients@[i].info == pre.clients@[i].info
                            &&& post.clients@[i].sync is Some
                            &&& if og.state is Stopped {
                                &&& ng.state is Starting
                                &&& ng.start_time == Some(t)
                                &&& ng.next_clk == Some(t)
                                &&& ng.bpm == og.bpm
                                &&& ng.tpqn == og.tpqn
                            } else {
                                ng == og
                            }
                        } else {
                            #[trigger] post.clients@[i] == pre.clients@[i]
                        }
                    }
            }
    } else {
        post.clients@ == pre.clients@
    }
}

/// What the StopPort command does: stop the named attached generator and
/// order one Stop byte for its port.
pub open spec fn spec_stop_port_rel(
    pre: MultiSync,
    port: PortInfo,
    post: MultiSync,
    acts: Seq<PortAction>,
) -> bool {
    &&& ctrl_eq(post.ctrl, pre.ctrl)
    &&& post.settings == pre.settings
    &&& post.state == pre.state
    &&& post.last_update == pre.last_update
    &&& post.last_port_update == pre.last_port_update
    &&& if exists|i: int|
        0 <= i < pre.clients@.len() && (#[trigger] pre.clients@[i]).info.id@ == port.id@
            && pre.clients@[i].sync is Some {
        &&& post.clients@.len() == pre.clients@.len()
        &&& forall|i: int|
            0 <= i < pre.clients@.len() ==> {
                if pre.clients@[i].info.id@ == port.id@ && pre.clients@[i].sync is Some {
                    let og = pre.clients@[i].sync.unwrap();
                    let ng = (#[trigger] post.clients@[i]).sync.unwrap();
                    &&& post.clients@[i].info == pre.clients@[i].info
                    &&& post.clients@[i].sync is Some
                    &&& ng.state == spec_stop_state(og.state)
                    &&& ng.start_time is None
                    &&& ng.next_clk is None
                    &&& ng.bpm == og.bpm
                    &&& ng.tpqn == og.tpqn
                    &&& ng.wire@ =~= og.wire@.push(MIDI_STOP)
                } else {
                    #[trigger] post.clients@[i] == pre.clients@[i]
                }
            }
        &&& acts.len() == 1
        &&& (acts[0] matches PortAction::Emit { id, bytes } && id@ == port.id@ && bytes@
            =~= seq![MIDI_STOP])
    } else {
        post.clients@ == pre.clients@ && acts.len() == 0
    }
}

/// What one drained command does to the coordinator: the display goes
/// dirty, and the command's own effect follows.  `AddListener` never
/// reaches the drain — the bus endpoint intercepts it.
pub open spec fn spec_cmd_step(
    pre: MultiSync,
    now: ProgramTime,
    cmd: MultiSyncCommand,
    post: MultiSync,
    acts: Seq<PortAction>,
) -> bool {
    &&& post.changed == true
    &&& match cmd {
        MultiSyncCommand::AddListener(_) => false,
        MultiSyncCommand::UpdateSettings(s) => acts.len() == 0 && spec_update_settings_rel(
            pre,
            s,
            post,
        ),
        MultiSyncCommand::Start => acts.len() == 0 && spec_start_rel(pre, now, post),
        MultiSyncCommand::Stop => spec_stop_rel(pre, post, acts),
        MultiSyncCommand::AddSyncForPort(p) => spec_add_sync_rel(pre, p, post, acts),
        MultiSyncCommand::DelSyncForPort(p) => spec_del_sync_rel(pre, p, post, acts),
        MultiSyncCommand::StartPort(p) => acts.len() == 0 && spec_start_port_rel(
            pre,
            p,
            now,
            post,
        ),
        MultiSyncCommand::StopPort(p) => spec_stop_port_rel(pre, p, post, acts),
    }
}

/// One record of a drain: the coordinator state a command found, the
/// command, and the driver actions it produced.
pub type CmdStep = (MultiSync, MultiSyncCommand, Seq<PortAction>);

/// A drained command sequence, applied in order: each record's step
/// relation holds between the successive coordinator states, and the
/// actions are the concatenation of the records' actions.
pub open spec fn spec_cmds_steps(
    pre: MultiSync,
    now: ProgramTime,
    steps: Seq<CmdStep>,
    post: MultiSync,
    acts: Seq<PortAction>,
) -> bool
    decreases steps.len(),
{
    if steps.len() == 0 {
        post == pre && acts.len() == 0
    } else {
        let mid = steps.last().0;
        let cmd = steps.last().1;
        let sacts = steps.last().2;
        let n = acts.len() - sacts.len();
        &&& sacts.len() <= acts.len()
        &&& spec_cmds_steps(pre, now, steps.drop_last(), mid, acts.take(n as int))
        &&& sacts =~= acts.skip(n as int)
        &&& spec_cmd_step(mid, now, cmd, post, sacts)
    }
}

/// How a drain pass ends: either nothing was ready, or one `AddListener`
/// was intercepted — the listener list may have grown by one, and nothing
/// else moved.
pub open spec fn spec_drain_done(pre: MultiSync, post: MultiSync) -> bool {
    &&& post.clients == pre.clients
    &&& post.settings == pre.settings
    &&& post.state == pre.state
    &&& post.changed == pre.changed
    &&& post.last_update == pre.last_update
    &&& post.last_port_update == pre.last_port_update
    &&& post.ctrl.cmd == pre.ctrl.cmd
    &&& post.ctrl.events@ == pre.ctrl.events@
    &&& (post.ctrl.listeners@ == pre.ctrl.listeners@ || exists|
        l: crossbeam_channel::Sender<MultiSyncEvent>,
    |
        post.ctrl.listeners@ == #[trigger] pre.ctrl.listeners@.push(l))
}

/// What ticking the generators does: every attached generator takes one
/// scheduling pass at `now`, emitting its due bytes; everything else stays.
pub open spec fn spec_tick_rel(
    pre: MultiSync,
    now: ProgramTime,
    post: MultiSync,
    bytes: Seq<Seq<u8>>,
    nexts: Seq<Option<ProgramTime>>,
) -> bool {
    &&& post.ctrl == pre.ctrl
    &&& post.settings == pre.settings
    &&& post.state == pre.state
    &&& post.changed == pre.changed
    &&& post.last_update == pre.last_update
    &&& post.last_port_update == pre.last_port_update
    &&& post.clients@.len() == pre.clients@.len()
    &&& bytes.len() == pre.clients@.len()
    &&& nexts.len() == pre.clients@.len()
    &&& forall|i: int|
        0 <= i < pre.clients@.len() ==> {
            &&& (#[trigger] post.clients@[i]).info == pre.clients@[i].info
            &&& match pre.clients@[i].sync {
                Some(og) => post.clients@[i].sync is Some && crate::midisync::spec_run_rel(
                    og,
                    now,
                    post.clients@[i].sync.unwrap(),
                    bytes[i],
                    nexts[i],
                ),
                None => post.clients@[i] == pre.clients@[i] && bytes[i].len() == 0
                    && nexts[i] is None,
            }
        }
}

/// The earlier of two optional instants.
pub open spec fn spec_earliest_of(
    a: Option<ProgramTime>,
    b: Option<ProgramTime>,
) -> Option<ProgramTime> {
    match (a, b) {
        (Some(x), Some(y)) => Some(
            if x.nanos <= y.nanos {
                x
            } else {
                y
            },
        ),
        (Some(x), None) => a,
        (None, Some(y)) => b,
        (None, None) => None,
    }
}

/// The earliest of a sequence of optional instants.
pub open spec fn spec_earliest(nexts: Seq<Option<ProgramTime>>) -> Option<ProgramTime>
    decreases nexts.len(),
{
    if nexts.len() == 0 {
        None
    } else {
        spec_earliest_of(spec_earliest(nexts.drop_last()), nexts.last())
    }
}

/// What the end of a coordinator pass does: when something changed or the
/// last snapshot has gone stale, a fresh snapshot is broadcast and the
/// throttle resets; otherwise nothing happens.
pub open spec fn spec_display_phase(pre: MultiSync, now: ProgramTime, post: MultiSync) -> bool {
    let stale = pre.last_update is None || now.nanos > pre.last_update.unwrap().nanos
        + 500_000_000;
    if pre.changed || stale {
        &&& post.clients == pre.clients
        &&& post.settings == pre.settings
        &&& post.state == pre.state
        &&& post.last_port_update == pre.last_port_update
        &&& post.ctrl.cmd == pre.ctrl.cmd
        &&& post.changed == false
        &&& post.last_update == Some(now)
        &&& exists|d: MultiSyncDisplay|
            #[trigger] spec_display_of(pre, d) && post.ctrl.events@ =~= pre.ctrl.events@.push(
                MultiSyncEvent::DisplayUpdate(d),
            )
        &&& spec_pruned(pre.ctrl.listeners@, post.ctrl.listeners@)
    } else {
        post == pre
    }
}

/// Everything one coordinator pass did, phase by phase: the state after
/// ticking the generators with each generator's bytes and next instant,
/// then the drained commands with the states around the drain, before the
/// display phase ends the pass.
pub struct RunTrace {
    pub after_tick: MultiSync,
    pub tick_bytes: Seq<Seq<u8>>,
    pub tick_nexts: Seq<Option<ProgramTime>>,
    pub tick_n: int,
    pub cmds: Seq<CmdStep>,
    pub before_done: MultiSync,
    pub after_cmds: MultiSync,
}

/// The coordinator: master state, settings, the control bus and one client
/// per discovered port.
pub struct MultiSync {
    pub ctrl: MultiSyncCtrl,
    pub clients: Vec<MultiSyncMidiClient>,
    pub settings: Settings,
    pub state: MultiSyncState,
    pub changed: bool,
    pub last_update: Option<ProgramTime>,
    pub last_port_update: Option<ProgramTime>,
}

impl MultiSync {
    /// Structural invariant: the settings are in range, every attached
    /// generator is well formed, no two clients claim one port, and the
    /// throttle timestamps are in the clock's range.
    pub open spec fn wf(&self) -> bool {
        &&& spec_settings_valid(self.settings)
        &&& forall|i: int| 0 <= i < self.clients@.len() ==> (#[trigger] self.clients@[i]).wf()
        &&& ids_unique(self.clients@)
        &&& match self.last_update {
            Some(t) => t.nanos <= MAX_PROGRAM_NANOS,
            None => true,
        }
        &&& match self.last_port_update {
            Some(t) => t.nanos <= MAX_PROGRAM_NANOS,
            None => true,
        }
    }

    /// A fresh coordinator in `Stopped` with default settings, plus the
    /// sender through which commands reach it.
    pub fn new() -> (r: (MultiSync, crossbeam_channel::Sender<MultiSyncCommand>))
        ensures
            r.0.wf(),
            r.0.state is Stopped,
            r.0.clients@.len() == 0,
            r.0.settings == (Settings { bpm: 130, quantum: 16, tpqn: None }),
            r.0.changed,
            r.0.last_update is None,
            r.0.last_port_update is None,
            r.0.ctrl.listeners@.len() == 0,
            r.0.ctrl.events@ =~= Seq::<MultiSyncEvent>::empty(),
    {
        let (ctrl, cmd) = MultiSyncCtrl::new();
        (
            MultiSync {
                ctrl,
                clients: Vec::new(),
                settings: Settings::new(130, 16, None),
                state: MultiSyncState::Stopped,
                changed: true,
                last_update: None,
                last_port_update: None,
            },
            cmd,
        )
    }

    /// The immutable snapshot published to listeners.
    pub fn to_display(&self) -> (r: MultiSyncDisplay)
        ensures
            spec_display_of(*self, r),
    {
        let mut ports: Vec<PortDisplay> = Vec::new();
        let mut i: usize = 0;
        while i < self.clients.len()
            invariant
                i <= self.clients@.len(),
                ports@.len() == i as int,
                forall|k: int|
                    0 <= k < i as int ==> {
                        &&& (#[trigger] ports@[k]).info == self.clients@[k].info
                        &&& match self.clients@[k].sync {
                            Some(g) => ports@[k].state == Some(g.state),
                            None => ports@[k].state is None,
                        }
                    },
            decreases self.clients@.len() - i,
        {
            ports.push(self.clients[i].to_display());
            i = i + 1;
        }
        MultiSyncDisplay { state: self.state, settings: self.settings, ports }
    }

    /// Whether the port list is due for re-enumeration: at least a second
    /// since the last one, or never enumerated.
    pub fn needs_port_refresh(&self, now: ProgramTime) -> (r: bool)
        requires
            self.wf(),
        ensures
            r == match self.last_port_update {
                None => true,
                Some(t) => now.nanos > t.nanos + 1_000_000_000,
            },
    {
        match self.last_port_update {
            None => true,
            Some(t) => now.nanos > t.nanos + 1_000_000_000,
        }
    }

    /// The caller failed to deliver a byte on this port's connection: latch
    /// the error on the attached generator.
    pub fn port_send_failed(&mut self, id: &String, msg: String)
        requires
            old(self).wf(),
        ensures
            final(self).wf(),
            final(self).settings == old(self).settings,
            final(self).state == old(self).state,
            final(self).ctrl.listeners@ == old(self).ctrl.listeners@,
            final(self).changed == old(self).changed,
            final(self).last_update == old(self).last_update,
            final(self).last_port_update == old(self).last_port_update,
            final(self).clients@.len() == old(self).clients@.len(),
            forall|i: int|
                0 <= i < old(self).clients@.len() ==> {
                    if old(self).clients@[i].info.id@ == id@ && old(self).clients@[i].sync
                        is Some {
                        let og = old(self).clients@[i].sync.unwrap();
                        &&& (#[trigger] final(self).clients@[i]).info == old(
                            self,
                        ).clients@[i].info
                        &&& final(self).clients@[i].sync is Some
                        &&& {
                            let ng = final(self).clients@[i].sync.unwrap();
                            if og.state is Error {
                                ng == og
                            } else {
                                &&& ng.state == MidiSyncState::Error(msg)
                                &&& ng.start_time is None
                                &&& ng.next_clk is None
                                &&& ng.bpm == og.bpm
                                &&& ng.tpqn == og.tpqn
                            }
                        }
                    } else {
                        #[trigger] final(self).clients@[i] == old(self).clients@[i]
                    }
                },
    {
        match find_client(&self.clients, id) {
            Some(i) => {
                let ghost orig = self.clients@;
                let mut c = self.clients.remove(i);
                match c.sync {
                    Some(mut g) => {
                        g.send_failed(msg);
                        c = MultiSyncMidiClient { info: c.info, sync: Some(g) };
                    },
                    None => {
                        c = MultiSyncMidiClient { info: c.info, sync: None };
                    },
                }
                self.clients.insert(i, c);
                proof {
                    assert(self.clients@ =~= orig.update(i as int, self.clients@[i as int]));
                }
            },
            None => {},
        }
    }

    /// The caller opened an output connection for this port: attach a fresh
    /// generator, in `Stopped`, carrying the current settings.  A port that
    /// vanished meanwhile, or already has a generator, is left alone.
    pub fn port_opened(&mut self, id: &String)
        requires
            old(self).wf(),
        ensures
            final(self).wf(),
            final(self).settings == old(self).settings,
            final(self).state == old(self).state,
            final(self).ctrl.listeners@ == old(self).ctrl.listeners@,
            final(self).changed == old(self).changed,
            final(self).last_update == old(self).last_update,
            final(self).last_port_update == old(self).last_port_update,
            final(self).clients@.len() == old(self).clients@.len(),
            forall|i: int|
                0 <= i < old(self).clients@.len() ==> {
                    if old(self).clients@[i].info.id@ == id@ && old(self).clients@[i].sync
                        is None {
                        &&& (#[trigger] final(self).clients@[i]).info == old(
                            self,
                        ).clients@[i].info
                        &&& final(self).clients@[i].sync is Some
                        &&& {
                            let ng = final(self).clients@[i].sync.unwrap();
                            &&& ng.state is Stopped
                            &&& ng.bpm == old(self).settings.bpm
                            &&& ng.tpqn == spec_tpqn_or_default(old(self).settings.tpqn)
                        }
                    } else {
                        #[trigger] final(self).clients@[i] == old(self).clients@[i]
                    }
                },
    {
        match find_client(&self.clients, id) {
            Some(i) => {
                if self.clients[i].sync.is_none() {
                    let ghost orig = self.clients@;
                    let g = MidiSync::new(self.settings.bpm, self.settings.tpqn);
                    let c = self.clients.remove(i);
                    let c = MultiSyncMidiClient { info: c.info, sync: Some(g) };
                    self.clients.insert(i, c);
                    proof {
                        assert(self.clients@ =~= orig.update(
                            i as int,
                            self.clients@[i as int],
                        ));
                    }
                }
            },
            None => {},
        }
    }
    /// Request a connection for a discovered, still unattached port.  The
    /// attach itself completes when the caller reports `port_opened`.
    fn add_sync_for_port(&mut self, port: PortInfo, actions: &mut Vec<PortAction>) -> (r: Result<
        (),
        String,
    >)
        requires
            old(self).wf(),
        ensures
            final(self).wf(),
            *final(self) == *old(self),
            r is Ok <==> exists|i: int|
                0 <= i < old(self).clients@.len() && (#[trigger] old(self).clients@[i]).info.id@
                    == port.id@ && old(self).clients@[i].sync is None,
            r is Ok ==> exists|i: int|
                {
                    &&& 0 <= i < old(self).clients@.len()
                    &&& (#[trigger] old(self).clients@[i]).info.id@ == port.id@
                    &&& final(actions)@ =~= old(actions)@.push(
                        PortAction::Open { info: old(self).clients@[i].info },
                    )
                },
            r is Err ==> final(actions)@ == old(actions)@,
            old(actions)@.len() <= final(actions)@.len(),
            final(actions)@.take(old(actions)@.len() as int) =~= old(actions)@,
            spec_add_sync_rel(
                *old(self),
                port,
                *final(self),
                final(actions)@.skip(old(actions)@.len() as int),
            ),
    {
        match find_client(&self.clients, &port.id) {
            None => Err(String::from_str("port not found")),
            Some(i) => {
                if self.clients[i].sync.is_some() {
                    Err(String::from_str("port already has a generator attached"))
                } else {
                    actions.push(PortAction::Open { info: self.clients[i].info.duplicate() });
                    Ok(())
                }
            },
        }
    }

    /// Detach a port's generator; allowed only once it is stopped or has a
    /// latched error.  The caller is told to drop the connection.
    fn del_sync_for_port(&mut self, port: PortInfo, actions: &mut Vec<PortAction>) -> (r: Result<
        (),
        String,
    >)
        requires
            old(self).wf(),
        ensures
            final(self).wf(),
            final(self).settings == old(self).settings,
            final(self).state == old(self).state,
            final(self).ctrl.listeners@ == old(self).ctrl.listeners@,
            final(self).changed == old(self).changed,
            final(self).last_update == old(self).last_update,
            final(self).last_port_update == old(self).last_port_update,
            final(self).clients@.len() == old(self).clients@.len(),
            r is Ok <==> exists|i: int|
                {
                    &&& 0 <= i < old(self).clients@.len()
                    &&& (#[trigger] old(self).clients@[i]).info.id@ == port.id@
                    &&& old(self).clients@[i].sync is Some
                    &&& (old(self).clients@[i].sync.unwrap().state is Stopped || old(
                        self,
                    ).clients@[i].sync.unwrap().state is Error)
                },
            forall|i: int|
                0 <= i < old(self).clients@.len() ==> {
                    if r is Ok && old(self).clients@[i].info.id@ == port.id@ {
                        &&& (#[trigger] final(self).clients@[i]).info == old(
                            self,
                        ).clients@[i].info
                        &&& final(self).clients@[i].sync is None
                    } else {
                        #[trigger] final(self).clients@[i] == old(self).clients@[i]
                    }
                },
            r is Ok ==> exists|i: int|
                {
                    &&& 0 <= i < old(self).clients@.len()
                    &&& (#[trigger] old(self).clients@[i]).info.id@ == port.id@
                    &&& final(actions)@ =~= old(actions)@.push(
                        PortAction::Close { id: old(self).clients@[i].info.id },
                    )
                },
            r is Err ==> final(actions)@ == old(actions)@ && final(self).clients@ == old(
                self,
            ).clients@,
            old(actions)@.len() <= final(actions)@.len(),
            final(actions)@.take(old(actions)@.len() as int) =~= old(actions)@,
            spec_del_sync_rel(
                *old(self),
                port,
                *final(self),
                final(actions)@.skip(old(actions)@.len() as int),
            ),
    {
        match find_client(&self.clients, &port.id) {
            None => Err(String::from_str("port not found")),
            Some(i) => {
                let stoppable = match &self.clients[i].sync {
                    Some(g) => matches!(
                        g.state,
                        MidiSyncState::Stopped | MidiSyncState::Error(_)
                    ),
                    None => false,
                };
                if !stoppable {
                    return Err(
                        String::from_str("port has no generator attached or it is not stopped"),
                    );
                }
                let ghost orig = self.clients@;
                let c = self.clients.remove(i);
                actions.push(PortAction::Close { id: c.info.id.clone() });
                let c = MultiSyncMidiClient { info: c.info, sync: None };
                self.clients.insert(i, c);
                proof {
                    assert(self.clients@ =~= orig.update(i as int, self.clients@[i as int]));
                }
                Ok(())
            },
        }
    }

    /// Replace the settings; allowed only while the master is stopped and
    /// the new settings are in range.  The new tempo is propagated to every
    /// stopped generator and the change is broadcast.
    fn update_settings(&mut self, settings: Settings) -> (r: Result<(), String>)
        requires
            old(self).wf(),
        ensures
            final(self).wf(),
            final(self).state == old(self).state,
            final(self).changed == old(self).changed,
            final(self).last_update == old(self).last_update,
            final(self).last_port_update == old(self).last_port_update,
            r is Ok <==> (old(self).state is Stopped && spec_settings_valid(settings)),
            r is Err ==> *final(self) == *old(self),
            r is Ok ==> {
                &&& final(self).settings == settings
                &&& final(self).clients@.len() == old(self).clients@.len()
                &&& forall|i: int|
                    0 <= i < old(self).clients@.len() ==> {
                        &&& (#[trigger] final(self).clients@[i]).info == old(
                            self,
                        ).clients@[i].info
                        &&& (final(self).clients@[i].sync is Some <==> old(
                            self,
                        ).clients@[i].sync is Some)
                        &&& (old(self).clients@[i].sync is Some ==> {
                            let og = old(self).clients@[i].sync.unwrap();
                            let ng = final(self).clients@[i].sync.unwrap();
                            if og.state is Stopped {
                                &&& ng.bpm == settings.bpm
                                &&& ng.tpqn == spec_tpqn_or_default(settings.tpqn)
                                &&& ng.state == og.state
                                &&& ng.start_time == og.start_time
                                &&& ng.next_clk == og.next_clk
                            } else {
                                ng == og
                            }
                        })
                    }
            },
            spec_update_settings_rel(*old(self), settings, *final(self)),
    {
        if !matches!(self.state, MultiSyncState::Stopped) {
            return Err(String::from_str("settings can only change while stopped"));
        }
        if !settings.is_valid() {
            return Err(String::from_str("settings out of range"));
        }
        self.settings = settings;
        let ghost orig = self.clients@;
        let mut out: Vec<MultiSyncMidiClient> = Vec::new();
        while self.clients.len() > 0
            invariant
                spec_settings_valid(settings),
                self.settings == settings,
                self.state == old(self).state,
                self.ctrl == old(self).ctrl,
                self.changed == old(self).changed,
                self.last_update == old(self).last_update,
                self.last_port_update == old(self).last_port_update,
                ids_unique(orig),
                out@.len() + self.clients@.len() == orig.len(),
                self.clients@ =~= orig.skip(out@.len() as int),
                forall|k: int| 0 <= k < orig.len() ==> (#[trigger] orig[k]).wf(),
                forall|k: int|
                    0 <= k < out@.len() ==> {
                        &&& (#[trigger] out@[k]).wf()
                        &&& out@[k].info == orig[k].info
                        &&& (out@[k].sync is Some <==> orig[k].sync is Some)
                        &&& (orig[k].sync is Some ==> {
                            let og = orig[k].sync.unwrap();
                            let ng = out@[k].sync.unwrap();
                            if og.state is Stopped {
                                &&& ng.bpm == settings.bpm
                                &&& ng.tpqn == spec_tpqn_or_default(settings.tpqn)
                                &&& ng.state == og.state
                                &&& ng.start_time == og.start_time
                                &&& ng.next_clk == og.next_clk
                            } else {
                                ng == og
                            }
                        })
                    },
            decreases self.clients@.len(),
        {
            let c = self.clients.remove(0);
            let MultiSyncMidiClient { info, sync } = c;
            let new_sync = match sync {
                Some(mut g) => {
                    if matches!(g.state, MidiSyncState::Stopped) {
                        let _ = g.update(settings.bpm, settings.tpqn);
                    }
                    Some(g)
                },
                None => None,
            };
            out.push(MultiSyncMidiClient { info, sync: new_sync });
        }
        self.clients = out;
        proof {
            assert forall|i: int, j: int|
                0 <= i < j < self.clients@.len() implies self.clients@[i].info.id@
                != self.clients@[j].info.id@ by {
                assert(self.clients@[i].wf());
                assert(self.clients@[j].wf());
            }
        }
        let _ = self.ctrl.publish(MultiSyncEvent::SettingsUpdated(settings));
        Ok(())
    }

    /// Start the master, or align late joiners.  From `Stopped` the anchor
    /// is chosen a moment ahead of now and every stopped generator is armed
    /// on it; while already started, stopped generators are armed on the
    /// next quantum of the running grid instead.
    fn start(&mut self, now: ProgramTime) -> (r: (Result<(), String>, Ghost<ProgramTime>))
        requires
            old(self).wf(),
            now.nanos <= MAX_PROGRAM_NANOS,
        ensures
            final(self).wf(),
            r.0 is Ok,
            final(self).settings == old(self).settings,
            final(self).ctrl.listeners@ == old(self).ctrl.listeners@,
            final(self).changed == old(self).changed,
            final(self).last_update == old(self).last_update,
            final(self).last_port_update == old(self).last_port_update,
            final(self).clients@.len() == old(self).clients@.len(),
            match old(self).state {
                MultiSyncState::Stopped => {
                    &&& r.1@.nanos == now.nanos + START_DELAY_NANOS
                    &&& final(self).state == MultiSyncState::Started(r.1@)
                },
                MultiSyncState::Started(a) => {
                    &&& spec_is_next_quantum(old(self).settings, a, now, r.1@)
                    &&& final(self).state == old(self).state
                },
            },
            forall|i: int|
                0 <= i < old(self).clients@.len() ==> {
                    &&& (#[trigger] final(self).clients@[i]).info == old(self).clients@[i].info
                    &&& (final(self).clients@[i].sync is Some <==> old(self).clients@[i].sync
                        is Some)
                    &&& (old(self).clients@[i].sync is Some ==> {
                        let og = old(self).clients@[i].sync.unwrap();
                        let ng = final(self).clients@[i].sync.unwrap();
                        if og.state is Stopped {
                            &&& ng.state is Starting
                            &&& ng.start_time == Some(r.1@)
                            &&& ng.next_clk == Some(r.1@)
                            &&& ng.bpm == og.bpm
                            &&& ng.tpqn == og.tpqn
                        } else {
                            ng == og
                        }
                    })
                },
            spec_start_rel(*old(self), now, *final(self)),
    {
        let start_time = match self.state {
            MultiSyncState::Stopped => {
                let t = ProgramTime { nanos: now.nanos + START_DELAY_NANOS };
                self.state = self.state.transition(MultiSyncState::Started(t));
                t
            },
            MultiSyncState::Started(a) => self.settings.next_quantum(a, now),
        };
        let ghost orig = self.clients@;
        let ghost st = self.state;
        let mut out: Vec<MultiSyncMidiClient> = Vec::new();
        while self.clients.len() > 0
            invariant
                now.nanos <= MAX_PROGRAM_NANOS,
                self.settings == old(self).settings,
                self.state == st,
                self.ctrl == old(self).ctrl,
                self.changed == old(self).changed,
                self.last_update == old(self).last_update,
                self.last_port_update == old(self).last_port_update,
                ids_unique(orig),
                out@.len() + self.clients@.len() == orig.len(),
                self.clients@ =~= orig.skip(out@.len() as int),
                forall|k: int| 0 <= k < orig.len() ==> (#[trigger] orig[k]).wf(),
                forall|k: int|
                    0 <= k < out@.len() ==> {
                        &&& (#[trigger] out@[k]).wf()
                        &&& out@[k].info == orig[k].info
                        &&& (out@[k].sync is Some <==> orig[k].sync is Some)
                        &&& (orig[k].sync is Some ==> {
                            let og = orig[k].sync.unwrap();
                            let ng = out@[k].sync.unwrap();
                            if og.state is Stopped {
                                &&& ng.state is Starting
                                &&& ng.start_time == Some(start_time)
                                &&& ng.next_clk == Some(start_time)
                                &&& ng.bpm == og.bpm
                                &&& ng.tpqn == og.tpqn
                            } else {
                                ng == og
                            }
                        })
                    },
            decreases self.clients@.len(),
        {
            let c = self.clients.remove(0);
            let MultiSyncMidiClient { info, sync } = c;
            let new_sync = match sync {
                Some(mut g) => {
                    g.start(Some(start_time), now);
                    Some(g)
                },
                None => None,
            };
            out.push(MultiSyncMidiClient { info, sync: new_sync });
        }
        self.clients = out;
        proof {
            assert forall|i: int, j: int|
                0 <= i < j < self.clients@.len() implies self.clients@[i].info.id@
                != self.clients@[j].info.id@ by {
                assert(self.clients@[i].wf());
                assert(self.clients@[j].wf());
            }
        }
        proof {
            assert(spec_start_anchor(old(self).state, old(self).settings, now, start_time));
        }
        (Ok(()), Ghost(start_time))
    }

    /// Stop every generator, whatever its state, and stop the master.  One
    /// Stop byte goes to each attached port.
    fn stop(&mut self, actions: &mut Vec<PortAction>) -> (r: Result<(), String>)
        requires
            old(self).wf(),
        ensures
            final(self).wf(),
            r is Ok,
            final(self).state is Stopped,
            final(self).settings == old(self).settings,
            final(self).ctrl.listeners@ == old(self).ctrl.listeners@,
            final(self).changed == old(self).changed,
            final(self).last_update == old(self).last_update,
            final(self).last_port_update == old(self).last_port_update,
            final(self).clients@.len() == old(self).clients@.len(),
            forall|i: int|
                0 <= i < old(self).clients@.len() ==> {
                    &&& (#[trigger] final(self).clients@[i]).info == old(self).clients@[i].info
                    &&& (final(self).clients@[i].sync is Some <==> old(self).clients@[i].sync
                        is Some)
                    &&& (old(self).clients@[i].sync is Some ==> {
                        let og = old(self).clients@[i].sync.unwrap();
                        let ng = final(self).clients@[i].sync.unwrap();
                        &&& ng.state == spec_stop_state(og.state)
                        &&& ng.start_time is None
                        &&& ng.next_clk is None
                        &&& ng.bpm == og.bpm
                        &&& ng.tpqn == og.tpqn
                        &&& ng.wire@ =~= og.wire@.push(MIDI_STOP)
                    })
                },
            old(actions)@.len() <= final(actions)@.len(),
            final(actions)@.take(old(actions)@.len() as int) =~= old(actions)@,
            spec_emits_for(
                old(self).clients@,
                spec_stop_bytes(old(self).clients@),
                final(actions)@.skip(old(actions)@.len() as int),
            ),
            spec_stop_rel(
                *old(self),
                *final(self),
                final(actions)@.skip(old(actions)@.len() as int),
            ),
    {
        let ghost orig = self.clients@;
        let mut out: Vec<MultiSyncMidiClient> = Vec::new();
        while self.clients.len() > 0
            invariant
                self.settings == old(self).settings,
                self.state == old(self).state,
                self.ctrl == old(self).ctrl,
                self.changed == old(self).changed,
                self.last_update == old(self).last_update,
                self.last_port_update == old(self).last_port_update,
                ids_unique(orig),
                out@.len() + self.clients@.len() == orig.len(),
                self.clients@ =~= orig.skip(out@.len() as int),
                forall|k: int| 0 <= k < orig.len() ==> (#[trigger] orig[k]).wf(),
                old(actions)@.len() <= actions@.len(),
                actions@.take(old(actions)@.len() as int) =~= old(actions)@,
                spec_emits_for(
                    orig.take(out@.len() as int),
                    spec_stop_bytes(orig.take(out@.len() as int)),
                    actions@.skip(old(actions)@.len() as int),
                ),
                forall|k: int|
                    0 <= k < out@.len() ==> {
                        &&& (#[trigger] out@[k]).wf()
                        &&& out@[k].info == orig[k].info
                        &&& (out@[k].sync is Some <==> orig[k].sync is Some)
                        &&& (orig[k].sync is Some ==> {
                            let og = orig[k].sync.unwrap();
                            let ng = out@[k].sync.unwrap();
                            &&& ng.state == spec_stop_state(og.state)
                            &&& ng.start_time is None
                            &&& ng.next_clk is None
                            &&& ng.bpm == og.bpm
                            &&& ng.tpqn == og.tpqn
                            &&& ng.wire@ =~= og.wire@.push(MIDI_STOP)
                        })
                    },
            decreases self.clients@.len(),
        {
            let ghost n = out@.len() as int;
            let ghost base = old(actions)@.len() as int;
            let ghost prev_delta = actions@.skip(base);
            let c = self.clients.remove(0);
            let MultiSyncMidiClient { info, sync } = c;
            let new_sync = match sync {
                Some(mut g) => {
                    let b = g.stop();
                    let mut bytes: Vec<u8> = Vec::new();
                    bytes.push(b);
                    proof {
                        assert(bytes@ =~= seq![MIDI_STOP]);
                    }
                    actions.push(PortAction::Emit { id: info.id.clone(), bytes });
                    proof {
                        assert(actions@.skip(base) =~= prev_delta.push(actions@.last()));
                    }
                    Some(g)
                },
                None => None,
            };
            out.push(MultiSyncMidiClient { info, sync: new_sync });
            proof {
                assert(orig.take(n + 1).drop_last() =~= orig.take(n));
                assert(orig.take(n + 1).last() == orig[n]);
                assert(spec_stop_bytes(orig.take(n + 1)).drop_last() =~= spec_stop_bytes(
                    orig.take(n),
                ));
                assert(spec_stop_bytes(orig.take(n + 1)).last() =~= if orig[n].sync is Some {
                    seq![MIDI_STOP]
                } else {
                    Seq::<u8>::empty()
                });
                if orig[n].sync is Some {
                    assert(actions@.skip(base).drop_last() =~= prev_delta);
                }
            }
        }
        proof {
            assert(orig.take(orig.len() as int) =~= orig);
            assert(spec_stop_bytes(orig.take(orig.len() as int)) =~= spec_stop_bytes(orig));
        }
        self.clients = out;
        proof {
            assert forall|i: int, j: int|
                0 <= i < j < self.clients@.len() implies self.clients@[i].info.id@
                != self.clients@[j].info.id@ by {
                assert(self.clients@[i].wf());
                assert(self.clients@[j].wf());
            }
        }
        self.state = self.state.transition(MultiSyncState::Stopped);
        Ok(())
    }

    /// Start one port's generator, aligned to the next quantum of the
    /// running grid; refused while the master is stopped.
    fn start_port(&mut self, port: PortInfo, now: ProgramTime) -> (r: (
        Result<(), String>,
        Ghost<ProgramTime>,
    ))
        requires
            old(self).wf(),
            now.nanos <= MAX_PROGRAM_NANOS,
        ensures
            final(self).wf(),
            final(self).settings == old(self).settings,
            final(self).state == old(self).state,
            final(self).ctrl.listeners@ == old(self).ctrl.listeners@,
            final(self).changed == old(self).changed,
            final(self).last_update == old(self).last_update,
            final(self).last_port_update == old(self).last_port_update,
            old(self).state is Stopped ==> r.0 is Err && *final(self) == *old(self),
            r.0 is Err ==> final(self).clients@ == old(self).clients@,
            r.0 is Ok <==> (old(self).state is Started && exists|i: int|
                0 <= i < old(self).clients@.len() && (#[trigger] old(self).clients@[i]).info.id@
                    == port.id@ && old(self).clients@[i].sync is Some),
            r.0 is Ok ==> {
                &&& final(self).clients@.len() == old(self).clients@.len()
                &&& spec_is_next_quantum(
                    old(self).settings,
                    old(self).state->Started_0,
                    now,
                    r.1@,
                )
                &&& forall|i: int|
                    0 <= i < old(self).clients@.len() ==> {
                        if old(self).clients@[i].info.id@ == port.id@ && old(
                            self,
                        ).clients@[i].sync is Some {
                            let og = old(self).clients@[i].sync.unwrap();
                            let ng = (#[trigger] final(self).clients@[i]).sync.unwrap();
                            &&& final(self).clients@[i].info == old(self).clients@[i].info
                            &&& final(self).clients@[i].sync is Some
                            &&& if og.state is Stopped {
                                &&& ng.state is Starting
                                &&& ng.start_time == Some(r.1@)
                                &&& ng.next_clk == Some(r.1@)
                                &&& ng.bpm == og.bpm
                                &&& ng.tpqn == og.tpqn
                            } else {
                                ng == og
                            }
                        } else {
                            #[trigger] final(self).clients@[i] == old(self).clients@[i]
                        }
                    }
            },
            spec_start_port_rel(*old(self), port, now, *final(self)),
    {
        let anchor = match self.state {
            MultiSyncState::Stopped => {
                return (
                    Err(String::from_str("master is not running")),
                    Ghost(ProgramTime { nanos: 0 }),
                );
            },
            MultiSyncState::Started(a) => a,
        };
        let start_time = self.settings.next_quantum(anchor, now);
        match find_client(&self.clients, &port.id) {
            None => (Err(String::from_str("port not found")), Ghost(start_time)),
            Some(i) => {
                let ghost orig = self.clients@;
                let c = self.clients.remove(i);
                let MultiSyncMidiClient { info, sync } = c;
                match sync {
                    Some(mut g) => {
                        g.start(Some(start_time), now);
                        self.clients.insert(i, MultiSyncMidiClient { info, sync: Some(g) });
                        proof {
                            assert(self.clients@ =~= orig.update(
                                i as int,
                                self.clients@[i as int],
                            ));
                        }
                        (Ok(()), Ghost(start_time))
                    },
                    None => {
                        self.clients.insert(i, MultiSyncMidiClient { info, sync: None });
                        proof {
                            assert(self.clients@ =~= orig);
                        }
                        (
                            Err(String::from_str("port has no generator attached")),
                            Ghost(start_time),
                        )
                    },
                }
            },
        }
    }

    /// Stop one port's generator; one Stop byte goes to its port.
    fn stop_port(&mut self, port: PortInfo, actions: &mut Vec<PortAction>) -> (r: Result<
        (),
        String,
    >)
        requires
            old(self).wf(),
        ensures
            final(self).wf(),
            final(self).settings == old(self).settings,
            final(self).state == old(self).state,
            final(self).ctrl.listeners@ == old(self).ctrl.listeners@,
            final(self).changed == old(self).changed,
            final(self).last_update == old(self).last_update,
            final(self).last_port_update == old(self).last_port_update,
            r is Ok <==> exists|i: int|
                0 <= i < old(self).clients@.len() && (#[trigger] old(self).clients@[i]).info.id@
                    == port.id@ && old(self).clients@[i].sync is Some,
            r is Err ==> final(self).clients@ == old(self).clients@ && final(actions)@ == old(
                actions,
            )@,
            r is Ok ==> final(self).clients@.len() == old(self).clients@.len() && forall|i: int|
                0 <= i < old(self).clients@.len() ==> {
                    if old(self).clients@[i].info.id@ == port.id@ && old(self).clients@[i].sync
                        is Some {
                        let og = old(self).clients@[i].sync.unwrap();
                        let ng = (#[trigger] final(self).clients@[i]).sync.unwrap();
                        &&& final(self).clients@[i].info == old(self).clients@[i].info
                        &&& final(self).clients@[i].sync is Some
                        &&& ng.state == spec_stop_state(og.state)
                        &&& ng.start_time is None
                        &&& ng.next_clk is None
                        &&& ng.bpm == og.bpm
                        &&& ng.tpqn == og.tpqn
                        &&& ng.wire@ =~= og.wire@.push(MIDI_STOP)
                    } else {
                        #[trigger] final(self).clients@[i] == old(self).clients@[i]
                    }
                },
            old(actions)@.len() <= final(actions)@.len(),
            final(actions)@.take(old(actions)@.len() as int) =~= old(actions)@,
            spec_stop_port_rel(
                *old(self),
                port,
                *final(self),
                final(actions)@.skip(old(actions)@.len() as int),
            ),
    {
        match find_client(&self.clients, &port.id) {
            None => Err(String::from_str("port not found")),
            Some(i) => {
                let ghost orig = self.clients@;
                let c = self.clients.remove(i);
                let MultiSyncMidiClient { info, sync } = c;
                match sync {
                    Some(mut g) => {
                        let b = g.stop();
                        let mut bytes: Vec<u8> = Vec::new();
                        bytes.push(b);
                        actions.push(PortAction::Emit { id: info.id.clone(), bytes });
                        self.clients.insert(i, MultiSyncMidiClient { info, sync: Some(g) });
                        proof {
                            assert(self.clients@ =~= orig.update(
                                i as int,
                                self.clients@[i as int],
                            ));
                        }
                        Ok(())
                    },
                    None => {
                        self.clients.insert(i, MultiSyncMidiClient { info, sync: None });
                        proof {
                            assert(self.clients@ =~= orig);
                        }
                        Err(String::from_str("port has no generator attached"))
                    },
                }
            },
        }
    }
    /// Reconcile the client list with a fresh enumeration of the driver's
    /// output ports.  A vanished port loses its client: the generator is
    /// stopped first and the caller is told to close the connection.  Newly
    /// reported ports are appended as unattached clients, first occurrence
    /// of each identifier, and announced on the bus.  Name changes on a
    /// stable identifier are accepted silently; a re-plugged device under a
    /// new identifier is a new client.
    #[verifier::rlimit(30)]
    pub fn update_ports(&mut self, now: ProgramTime, found: &Vec<PortInfo>) -> (actions: Vec<
        PortAction,
    >)
        requires
            old(self).wf(),
            now.nanos <= MAX_PROGRAM_NANOS,
        ensures
            final(self).wf(),
            final(self).clients@ =~= spec_port_diff(old(self).clients@, found@),
            final(self).last_port_update == Some(now),
            final(self).settings == old(self).settings,
            final(self).state == old(self).state,
            final(self).last_update == old(self).last_update,
            final(self).changed == (old(self).changed || spec_keep_found(
                old(self).clients@,
                found@,
            ).len() != old(self).clients@.len() || spec_new_ports(
                found@,
                old(self).clients@,
            ).len() != 0),
            spec_removed_actions(old(self).clients@, found@, actions@),
            spec_new_ports(found@, old(self).clients@).len() != 0 ==> exists|ps: Vec<PortInfo>|
                {
                    &&& #[trigger] ps@ =~= spec_new_ports(found@, old(self).clients@)
                    &&& final(self).ctrl.events@ =~= old(self).ctrl.events@.push(
                        MultiSyncEvent::NewPorts(ps),
                    )
                    &&& spec_pruned(old(self).ctrl.listeners@, final(self).ctrl.listeners@)
                },
            spec_new_ports(found@, old(self).clients@).len() == 0 ==> ctrl_eq(
                final(self).ctrl,
                old(self).ctrl,
            ),
    {
        let ghost orig = self.clients@;
        let mut orig_ids: Vec<String> = Vec::new();
        let mut i: usize = 0;
        while i < self.clients.len()
            invariant
                i <= self.clients@.len(),
                self.clients@ == orig,
                orig_ids@.len() == i as int,
                forall|k: int|
                    0 <= k < i as int ==> (#[trigger] orig_ids@[k])@ == orig[k].info.id@,
            decreases self.clients@.len() - i,
        {
            orig_ids.push(self.clients[i].info.id.clone());
            i = i + 1;
        }
        let mut kept: Vec<MultiSyncMidiClient> = Vec::new();
        let mut actions: Vec<PortAction> = Vec::new();
        let ghost mut n: int = 0;
        proof {
            reveal_with_fuel(Seq::<MultiSyncMidiClient>::filter, 2);
            assert(orig.skip(0) =~= orig);
            assert(orig.take(0) =~= Seq::<MultiSyncMidiClient>::empty());
            assert(spec_keep_found(orig.take(0), found@) =~= Seq::<
                MultiSyncMidiClient,
            >::empty());
        }
        while self.clients.len() > 0
            invariant
                self.settings == old(self).settings,
                self.state == old(self).state,
                self.ctrl == old(self).ctrl,
                self.last_update == old(self).last_update,
                self.last_port_update == old(self).last_port_update,
                ids_unique(orig),
                forall|k: int| 0 <= k < orig.len() ==> (#[trigger] orig[k]).wf(),
                0 <= n <= orig.len(),
                self.clients@ =~= orig.skip(n),
                kept@ =~= spec_keep_found(orig.take(n), found@),
                self.changed == (old(self).changed || kept@.len() < n),
                spec_removed_actions(orig.take(n), found@, actions@),
            decreases self.clients@.len(),
        {
            let c = self.clients.remove(0);
            proof {
                reveal_with_fuel(Seq::<MultiSyncMidiClient>::filter, 2);
                assert(c == orig[n]);
                assert(self.clients@ =~= orig.skip(n + 1));
                assert(orig.take(n + 1).drop_last() =~= orig.take(n));
                assert(orig.take(n + 1).last() == orig[n]);
            }
            if info_list_contains(found, &c.info.id) {
                kept.push(c);
            } else {
                self.changed = true;
                let ghost prev_acts = actions@;
                let MultiSyncMidiClient { info, sync } = c;
                let ghost idg = info.id;
                match sync {
                    Some(mut g) => {
                        let b = g.stop();
                        let mut bytes: Vec<u8> = Vec::new();
                        bytes.push(b);
                        proof {
                            assert(bytes@ =~= seq![MIDI_STOP]);
                        }
                        actions.push(PortAction::Emit { id: info.id.clone(), bytes });
                    },
                    None => {},
                }
                actions.push(PortAction::Close { id: info.id });
                proof {
                    if orig[n].sync is Some {
                        assert(actions@.len() == prev_acts.len() + 2);
                        assert(actions@.take(actions@.len() - 2) =~= prev_acts);
                        assert(actions@[actions@.len() - 2] matches PortAction::Emit {
                            id,
                            bytes,
                        } && id@ == orig[n].info.id@ && bytes@ =~= seq![MIDI_STOP]);
                        assert(actions@.last() == PortAction::Close { id: idg });
                    } else {
                        assert(actions@.drop_last() =~= prev_acts);
                        assert(actions@.last() == PortAction::Close { id: idg });
                    }
                }
            }
            proof {
                n = n + 1;
            }
        }
        proof {
            assert(orig.take(orig.len() as int) =~= orig);
        }
        let mut fresh: Vec<PortInfo> = Vec::new();
        let mut j: usize = 0;
        proof {
            assert(found@.take(0) =~= Seq::<PortInfo>::empty());
        }
        while j < found.len()
            invariant
                j <= found@.len(),
                orig_ids@.len() == orig.len(),
                forall|k: int|
                    0 <= k < orig.len() ==> (#[trigger] orig_ids@[k])@ == orig[k].info.id@,
                fresh@ =~= spec_new_ports(found@.take(j as int), orig),
            decreases found@.len() - j,
        {
            let p = &found[j];
            let known = string_list_contains(&orig_ids, &p.id);
            let dup = info_list_contains(&fresh, &p.id);
            proof {
                assert(found@.take(j + 1).drop_last() =~= found@.take(j as int));
                assert(found@.take(j + 1).last() == found@[j as int]);
                if known {
                    let k = choose|k: int|
                        0 <= k < orig_ids@.len() && (#[trigger] orig_ids@[k])@ == p.id@;
                    assert(orig[k].info.id@ == p.id@);
                    assert(has_id(orig, p.id@));
                } else {
                    assert forall|m: int| 0 <= m < orig.len() implies (#[trigger] orig[m]).info.id@
                        != p.id@ by {
                        assert(orig_ids@[m]@ == orig[m].info.id@);
                    }
                }
            }
            if !known && !dup {
                fresh.push(p.duplicate());
            }
            j = j + 1;
        }
        proof {
            assert(found@.take(found@.len() as int) =~= found@);
        }
        let ghost keptseq = kept@;
        let ghost freshseq = fresh@;
        let has_new = fresh.len() > 0;
        let mut j2: usize = 0;
        proof {
            assert(freshseq.take(0).map_values(
                |p: PortInfo| MultiSyncMidiClient { info: p, sync: None },
            ) =~= Seq::<MultiSyncMidiClient>::empty());
        }
        while j2 < fresh.len()
            invariant
                j2 <= fresh@.len(),
                fresh@ == freshseq,
                kept@ =~= keptseq + freshseq.take(j2 as int).map_values(
                    |p: PortInfo| MultiSyncMidiClient { info: p, sync: None },
                ),
            decreases fresh@.len() - j2,
        {
            kept.push(MultiSyncMidiClient { info: fresh[j2].duplicate(), sync: None });
            proof {
                assert(freshseq.take(j2 + 1).map_values(
                    |p: PortInfo| MultiSyncMidiClient { info: p, sync: None },
                ) =~= freshseq.take(j2 as int).map_values(
                    |p: PortInfo| MultiSyncMidiClient { info: p, sync: None },
                ).push(MultiSyncMidiClient { info: freshseq[j2 as int], sync: None }));
            }
            j2 = j2 + 1;
        }
        proof {
            assert(freshseq.take(freshseq.len() as int) =~= freshseq);
        }
        self.clients = kept;
        if has_new {
            self.changed = true;
            let _ = self.ctrl.publish(MultiSyncEvent::NewPorts(fresh));
        }
        self.last_port_update = Some(now);
        proof {
            lemma_keep_found_unique(orig, found@);
            lemma_new_ports_fresh(found@, orig);
            let keep = spec_keep_found(orig, found@);
            let news = spec_new_ports(found@, orig);
            let newc = news.map_values(|p: PortInfo| MultiSyncMidiClient { info: p, sync: None });
            assert forall|a: int, b: int|
                0 <= a < b < self.clients@.len() implies self.clients@[a].info.id@
                != self.clients@[b].info.id@ by {
                if b < keep.len() {
                } else if a >= keep.len() {
                    assert(news[a - keep.len()].id@ != news[b - keep.len()].id@);
                } else {
                    let m = choose|m: int| 0 <= m < orig.len() && keep[a] == orig[m];
                    assert(!has_id(orig, news[b - keep.len()].id@));
                    assert(orig[m].info.id@ != news[b - keep.len()].id@);
                }
            }
            assert forall|k: int|
                0 <= k < self.clients@.len() implies (#[trigger] self.clients@[k]).wf() by {
                if k < keep.len() {
                    let m = choose|m: int| 0 <= m < orig.len() && keep[k] == orig[m];
                    assert(orig[m].wf());
                } else {
                    assert(self.clients@[k].sync is None);
                }
            }
        }
        actions
    }

    /// Drain the command queue, one pass.  Every command marks the display
    /// dirty; a command whose precondition fails is recorded as that
    /// command's error and dropped, never fatal.  `AddListener` never
    /// reaches here — the bus endpoint intercepts it.
    fn process_cmds(&mut self, now: ProgramTime, actions: &mut Vec<PortAction>) -> (g: Ghost<
        (Seq<CmdStep>, MultiSync),
    >)
        requires
            old(self).wf(),
            now.nanos <= MAX_PROGRAM_NANOS,
        ensures
            final(self).wf(),
            old(actions)@.len() <= final(actions)@.len(),
            final(actions)@.take(old(actions)@.len() as int) =~= old(actions)@,
            spec_cmds_steps(
                *old(self),
                now,
                g@.0,
                g@.1,
                final(actions)@.skip(old(actions)@.len() as int),
            ),
            spec_drain_done(g@.1, *final(self)),
    {
        let ghost base = old(actions)@.len() as int;
        let ghost mut cmds: Seq<CmdStep> = Seq::empty();
        let ghost mut done_pre: MultiSync = *self;
        let mut more = true;
        let mut budget: usize = CMD_BUDGET;
        proof {
            assert(actions@.skip(base) =~= Seq::<PortAction>::empty());
        }
        while more && budget > 0
            invariant
                self.wf(),
                now.nanos <= MAX_PROGRAM_NANOS,
                base == old(actions)@.len() as int,
                base <= actions@.len(),
                actions@.take(base) =~= old(actions)@,
                more ==> spec_cmds_steps(*old(self), now, cmds, *self, actions@.skip(base)),
                !more ==> spec_cmds_steps(
                    *old(self),
                    now,
                    cmds,
                    done_pre,
                    actions@.skip(base),
                ) && spec_drain_done(done_pre, *self),
            decreases budget,
        {
            budget = budget - 1;
            let ghost prior = *self;
            let ghost prev_acts = actions@;
            match self.ctrl.get_cmd() {
                None => {
                    proof {
                        done_pre = prior;
                    }
                    more = false;
                },
                Some(cmd) => {
                    let ghost cmdg = cmd;
                    self.changed = true;
                    match cmd {
                        MultiSyncCommand::AddSyncForPort(port) => {
                            let _ = self.add_sync_for_port(port, actions);
                        },
                        MultiSyncCommand::DelSyncForPort(port) => {
                            let _ = self.del_sync_for_port(port, actions);
                        },
                        MultiSyncCommand::UpdateSettings(settings) => {
                            let _ = self.update_settings(settings);
                        },
                        MultiSyncCommand::Start => {
                            let _ = self.start(now);
                        },
                        MultiSyncCommand::Stop => {
                            let _ = self.stop(actions);
                        },
                        MultiSyncCommand::StartPort(port) => {
                            let _ = self.start_port(port, now);
                        },
                        MultiSyncCommand::StopPort(port) => {
                            let _ = self.stop_port(port, actions);
                        },
                        MultiSyncCommand::AddListener(_) => {},
                    }
                    proof {
                        let k = prev_acts.len() as int - base;
                        let cur = actions@;
                        let predelta = prev_acts.skip(base);
                        let stepacts = cur.skip(prev_acts.len() as int);
                        let newdelta = cur.skip(base);
                        assert(cur.take(prev_acts.len() as int) =~= prev_acts);
                        assert forall|j: int| 0 <= j < prev_acts.len() implies cur[j]
                            == prev_acts[j] by {
                            assert(prev_acts[j] == cur.take(prev_acts.len() as int)[j]);
                        }
                        assert forall|j: int| 0 <= j < newdelta.len() implies newdelta[j] == (
                        predelta + stepacts)[j] by {
                            assert(newdelta[j] == cur[base + j]);
                            if j < k {
                                assert(predelta[j] == prev_acts[base + j]);
                            } else {
                                assert(stepacts[j - k] == cur[prev_acts.len() + (j - k)]);
                            }
                        }
                        assert(newdelta =~= predelta + stepacts);
                        assert(newdelta.take(k) =~= predelta);
                        assert(newdelta.skip(k) =~= stepacts);
                        assert(spec_cmd_step(prior, now, cmdg, *self, stepacts));
                        let newcmds = cmds.push((prior, cmdg, stepacts));
                        assert(newcmds.drop_last() =~= cmds);
                        assert(spec_cmds_steps(
                            *old(self),
                            now,
                            newcmds.drop_last(),
                            prior,
                            newdelta.take(k),
                        ));
                        cmds = newcmds;
                        assert(spec_cmds_steps(*old(self), now, cmds, *self, newdelta));
                        assert(cur.take(base) =~= prev_acts.take(base));
                    }
                },
            }
        }
        if more {
            proof {
                done_pre = *self;
            }
        }
        Ghost((cmds, done_pre))
    }

    /// Tick every attached generator once and collect what is now due on
    /// each port's wire, together with the earliest next scheduled instant
    /// across all generators (a hint for the caller's sleep).
    fn tick_clients(&mut self, now: ProgramTime) -> (r: (
        Vec<PortAction>,
        Option<ProgramTime>,
        Ghost<(Seq<Seq<u8>>, Seq<Option<ProgramTime>>)>,
    ))
        requires
            old(self).wf(),
            now.nanos <= MAX_PROGRAM_NANOS,
        ensures
            final(self).wf(),
            spec_tick_rel(*old(self), now, *final(self), r.2@.0, r.2@.1),
            spec_emits_for(old(self).clients@, r.2@.0, r.0@),
            r.1 == spec_earliest(r.2@.1),
    {
        let ghost orig = self.clients@;
        let mut out: Vec<MultiSyncMidiClient> = Vec::new();
        let mut actions: Vec<PortAction> = Vec::new();
        let mut earliest: Option<ProgramTime> = None;
        let ghost mut bs: Seq<Seq<u8>> = Seq::empty();
        let ghost mut ns: Seq<Option<ProgramTime>> = Seq::empty();
        while self.clients.len() > 0
            invariant
                now.nanos <= MAX_PROGRAM_NANOS,
                self.settings == old(self).settings,
                self.state == old(self).state,
                self.ctrl == old(self).ctrl,
                self.changed == old(self).changed,
                self.last_update == old(self).last_update,
                self.last_port_update == old(self).last_port_update,
                ids_unique(orig),
                out@.len() + self.clients@.len() == orig.len(),
                self.clients@ =~= orig.skip(out@.len() as int),
                forall|k: int| 0 <= k < orig.len() ==> (#[trigger] orig[k]).wf(),
                bs.len() == out@.len(),
                ns.len() == out@.len(),
                forall|k: int|
                    0 <= k < out@.len() ==> {
                        &&& (#[trigger] out@[k]).info == orig[k].info
                        &&& match orig[k].sync {
                            Some(og) => out@[k].sync is Some && crate::midisync::spec_run_rel(
                                og,
                                now,
                                out@[k].sync.unwrap(),
                                bs[k],
                                ns[k],
                            ),
                            None => out@[k] == orig[k] && bs[k].len() == 0 && ns[k] is None,
                        }
                    },
                spec_emits_for(orig.take(out@.len() as int), bs, actions@),
                earliest == spec_earliest(ns),
            decreases self.clients@.len(),
        {
            let ghost n = out@.len() as int;
            let ghost prev_actions = actions@;
            let ghost prev_bs = bs;
            let ghost prev_ns = ns;
            let c = self.clients.remove(0);
            proof {
                assert(c == orig[n]);
                assert(self.clients@ =~= orig.skip(n + 1));
            }
            let MultiSyncMidiClient { info, sync } = c;
            let new_sync = match sync {
                Some(mut g) => {
                    let (bytes, next) = g.run(now);
                    proof {
                        bs = bs.push(bytes@);
                        ns = ns.push(next);
                    }
                    if bytes.len() > 0 {
                        actions.push(PortAction::Emit { id: info.id.clone(), bytes });
                        proof {
                            assert(actions@ =~= prev_actions.push(actions@.last()));
                        }
                    }
                    earliest = earliest_of(earliest, next);
                    Some(g)
                },
                None => {
                    proof {
                        bs = bs.push(Seq::empty());
                        ns = ns.push(None);
                    }
                    earliest = earliest_of(earliest, None);
                    None
                },
            };
            out.push(MultiSyncMidiClient { info, sync: new_sync });
            proof {
                assert(orig.take(n + 1).drop_last() =~= orig.take(n));
                assert(orig.take(n + 1).last() == orig[n]);
                assert(bs.drop_last() =~= prev_bs);
                assert(ns.drop_last() =~= prev_ns);
                if bs.last().len() > 0 {
                    assert(actions@.drop_last() =~= prev_actions);
                }
            }
        }
        proof {
            assert(orig.take(orig.len() as int) =~= orig);
        }
        self.clients = out;
        proof {
            assert forall|i: int, j: int|
                0 <= i < j < self.clients@.len() implies self.clients@[i].info.id@
                != self.clients@[j].info.id@ by {
                assert(self.clients@[i].wf());
                assert(self.clients@[j].wf());
            }
        }
        (actions, earliest, Ghost((bs, ns)))
    }

    /// One coordinator pass: tick every generator, drain the command queue,
    /// and publish a display snapshot when something changed or the last
    /// snapshot has grown stale.  Port re-enumeration is separate — see
    /// `needs_port_refresh` and `update_ports`.  Returns the driver actions
    /// now due — first each generator's bytes in client order, then what the
    /// drained commands ordered — the earliest next scheduled instant as a
    /// sleep hint, and, as ghost data, the whole pass phase by phase: what
    /// the tick did, which commands were drained, and the states in between.
    pub fn run(&mut self, now: ProgramTime) -> (r: (
        Vec<PortAction>,
        Option<ProgramTime>,
        Ghost<RunTrace>,
    ))
        requires
            old(self).wf(),
            now.nanos <= MAX_PROGRAM_NANOS,
        ensures
            final(self).wf(),
            ({
                let tr = r.2@;
                &&& spec_tick_rel(*old(self), now, tr.after_tick, tr.tick_bytes, tr.tick_nexts)
                &&& 0 <= tr.tick_n <= r.0@.len()
                &&& spec_emits_for(old(self).clients@, tr.tick_bytes, r.0@.take(tr.tick_n))
                &&& r.1 == spec_earliest(tr.tick_nexts)
                &&& spec_cmds_steps(
                    tr.after_tick,
                    now,
                    tr.cmds,
                    tr.before_done,
                    r.0@.skip(tr.tick_n),
                )
                &&& spec_drain_done(tr.before_done, tr.after_cmds)
                &&& spec_display_phase(tr.after_cmds, now, *final(self))
            }),
    {
        let (mut actions, earliest, tick_trace) = self.tick_clients(now);
        let ghost after_tick = *self;
        let ghost tick_n = actions@.len() as int;
        let ghost tick_acts = actions@;
        let g = self.process_cmds(now, &mut actions);
        let ghost after_cmds = *self;
        let timed = match self.last_update {
            None => true,
            Some(t) => now.nanos > t.nanos + 500_000_000,
        };
        if self.changed || timed {
            let disp = self.to_display();
            let ghost dg = disp;
            proof {
                assert(spec_display_of(after_cmds, dg));
            }
            let _ = self.ctrl.publish(MultiSyncEvent::DisplayUpdate(disp));
            self.last_update = Some(now);
            self.changed = false;
        }
        proof {
            assert(actions@.take(tick_n) =~= tick_acts);
        }
        (
            actions,
            earliest,
            Ghost(
                RunTrace {
                    after_tick,
                    tick_bytes: tick_trace@.0,
                    tick_nexts: tick_trace@.1,
                    tick_n,
                    cmds: g@.0,
                    before_done: g@.1,
                    after_cmds,
                },
            ),
        )
    }

    /// Tear the coordinator down: every generator is stopped — one Stop
    /// byte per attached port, the user-safety invariant on every shutdown
    /// path — and every attached connection is closed.
    pub fn shutdown(&mut self) -> (r: (Vec<PortAction>, Ghost<int>))
        requires
            old(self).wf(),
        ensures
            final(self).wf(),
            final(self).state is Stopped,
            final(self).clients@.len() == old(self).clients@.len(),
            forall|i: int|
                0 <= i < old(self).clients@.len() ==> {
                    &&& (#[trigger] final(self).clients@[i]).info == old(self).clients@[i].info
                    &&& (final(self).clients@[i].sync is Some <==> old(self).clients@[i].sync
                        is Some)
                    &&& (old(self).clients@[i].sync is Some ==> {
                        let og = old(self).clients@[i].sync.unwrap();
                        let ng = final(self).clients@[i].sync.unwrap();
                        &&& ng.state == spec_stop_state(og.state)
                        &&& ng.wire@ =~= og.wire@.push(MIDI_STOP)
                    })
                },
            0 <= r.1@ <= r.0@.len(),
            spec_emits_for(
                old(self).clients@,
                spec_stop_bytes(old(self).clients@),
                r.0@.take(r.1@),
            ),
            r.0@.skip(r.1@) =~= spec_close_actions(old(self).clients@),
    {
        let mut actions: Vec<PortAction> = Vec::new();
        let _ = self.stop(&mut actions);
        let ghost split = actions@.len() as int;
        proof {
            assert(actions@.skip(0) =~= actions@);
            assert(actions@.take(split) =~= actions@);
        }
        let ghost mid = *self;
        let ghost stop_acts = actions@;
        let mut i: usize = 0;
        proof {
            assert(old(self).clients@.take(0) =~= Seq::<MultiSyncMidiClient>::empty());
            assert(actions@.skip(split) =~= Seq::<PortAction>::empty());
        }
        while i < self.clients.len()
            invariant
                *self == mid,
                split == stop_acts.len() as int,
                split <= actions@.len(),
                spec_emits_for(
                    old(self).clients@,
                    spec_stop_bytes(old(self).clients@),
                    stop_acts,
                ),
                i <= self.clients@.len(),
                self.clients@.len() == old(self).clients@.len(),
                forall|k: int|
                    0 <= k < old(self).clients@.len() ==> {
                        &&& (#[trigger] self.clients@[k]).info == old(self).clients@[k].info
                        &&& (self.clients@[k].sync is Some <==> old(self).clients@[k].sync
                            is Some)
                    },
                actions@.take(split) =~= stop_acts,
                actions@.skip(split) =~= spec_close_actions(old(self).clients@.take(i as int)),
            decreases self.clients@.len() - i,
        {
            let ghost prev_acts = actions@;
            if self.clients[i].sync.is_some() {
                actions.push(PortAction::Close { id: self.clients[i].info.id.clone() });
                proof {
                    assert(actions@.drop_last() =~= prev_acts);
                    assert(actions@.take(split) =~= prev_acts.take(split));
                    assert(actions@.last() == PortAction::Close {
                        id: old(self).clients@[i as int].info.id,
                    });
                    assert(actions@.skip(split).drop_last() =~= prev_acts.skip(split));
                    assert(actions@.skip(split) =~= prev_acts.skip(split).push(
                        actions@.last(),
                    ));
                }
            }
            proof {
                assert(old(self).clients@.take(i + 1).drop_last() =~= old(self).clients@.take(
                    i as int,
                ));
                assert(old(self).clients@.take(i + 1).last() == old(self).clients@[i as int]);
            }
            i = i + 1;
        }
        proof {
            assert(old(self).clients@.take(old(self).clients@.len() as int) =~= old(
                self,
            ).clients@);
        }
        (actions, Ghost(split))
    }
}

/// How long the caller's worker may sleep after a pass, in nanoseconds:
/// until the next scheduled emission, bounded by a 10 ms ceiling so command
/// and discovery latency stay low; nothing when the instant has already
/// passed; the full ceiling when nothing is scheduled.
pub fn worker_sleep_nanos(next_event: Option<ProgramTime>, current: ProgramTime) -> (r: u64)
    ensures
        r == match next_event {
            Some(n) => if n.nanos > current.nanos {
                if n.nanos - current.nanos < 10_000_000 {
                    n.nanos - current.nanos
                } else {
                    10_000_000int
                }
            } else {
                0int
            },
            None => 10_000_000int,
        },
{
    match next_event {
        Some(n) => {
            if n.nanos > current.nanos {
                let d = n.nanos - current.nanos;
                if d < 10_000_000 {
                    d
                } else {
                    10_000_000
                }
            } else {
                0
            }
        },
        None => 10_000_000,
    }
}

/// The earlier of two optional instants.
fn earliest_of(a: Option<ProgramTime>, b: Option<ProgramTime>) -> (r: Option<ProgramTime>)
    ensures
        r == spec_earliest_of(a, b),
{
    match (a, b) {
        (Some(x), Some(y)) => if x.nanos <= y.nanos {
            Some(x)
        } else {
            Some(y)
        },
        (Some(x), None) => Some(x),
        (None, Some(y)) => Some(y),
        (None, None) => None,
    }
}

/// The index of the client that claims this port identifier, if any.
fn find_client(clients: &Vec<MultiSyncMidiClient>, id: &String) -> (r: Option<usize>)
    ensures
        match r {
            Some(i) => i < clients@.len() && clients@[i as int].info.id@ == id@,
            None => !has_id(clients@, id@),
        },
{
    let mut i: usize = 0;
    while i < clients.len()
        invariant
            i <= clients@.len(),
            forall|k: int| 0 <= k < i as int ==> (#[trigger] clients@[k].info.id@) != id@,
        decreases clients@.len() - i,
    {
        if clients[i].info.id == *id {
            return Some(i);
        }
        i = i + 1;
    }
    None
}

/// Whether any of these identifiers is the given one.
fn string_list_contains(ids: &Vec<String>, id: &String) -> (r: bool)
    ensures
        r == exists|k: int| 0 <= k < ids@.len() && (#[trigger] ids@[k])@ == id@,
{
    let mut i: usize = 0;
    while i < ids.len()
        invariant
            i <= ids@.len(),
            forall|k: int| 0 <= k < i as int ==> (#[trigger] ids@[k])@ != id@,
        decreases ids@.len() - i,
    {
        if ids[i] == *id {
            return true;
        }
        i = i + 1;
    }
    false
}

/// Whether any reported port carries this identifier.
fn info_list_contains(ps: &Vec<PortInfo>, id: &String) -> (r: bool)
    ensures
        r == info_has_id(ps@, id@),
{
    let mut i: usize = 0;
    while i < ps.len()
        invariant
            i <= ps@.len(),
            forall|k: int| 0 <= k < i as int ==> (#[trigger] ps@[k].id@) != id@,
        decreases ps@.len() - i,
    {
        if ps[i].id == *id {
            return true;
        }
        i = i + 1;
    }
    false
}

/// Retaining the surviving clients keeps their identifiers unique, and
/// every survivor is one of the original clients.
pub proof fn lemma_keep_found_unique(cs: Seq<MultiSyncMidiClient>, found: Seq<PortInfo>)
    requires
        ids_unique(cs),
    ensures
        ids_unique(spec_keep_found(cs, found)),
        forall|k: int|
            0 <= k < spec_keep_found(cs, found).len() ==> exists|m: int|
                0 <= m < cs.len() && #[trigger] spec_keep_found(cs, found)[k] == cs[m],
    decreases cs.len(),
{
    reveal_with_fuel(Seq::<MultiSyncMidiClient>::filter, 2);
    let pred = |c: MultiSyncMidiClient| info_has_id(found, c.info.id@);
    if cs.len() > 0 {
        let dl = cs.drop_last();
        lemma_keep_found_unique(dl, found);
        let keep_dl = dl.filter(pred);
        assert(cs.filter(pred) == if pred(cs.last()) {
            keep_dl.push(cs.last())
        } else {
            keep_dl
        });
        assert forall|k: int|
            0 <= k < spec_keep_found(cs, found).len() implies exists|m: int|
            0 <= m < cs.len() && #[trigger] spec_keep_found(cs, found)[k] == cs[m] by {
            if k < keep_dl.len() {
                let m = choose|m: int| 0 <= m < dl.len() && keep_dl[k] == dl[m];
                assert(spec_keep_found(cs, found)[k] == cs[m]);
            } else {
                assert(spec_keep_found(cs, found)[k] == cs[cs.len() - 1]);
            }
        }
        assert forall|a: int, b: int|
            0 <= a < b < spec_keep_found(cs, found).len() implies spec_keep_found(
            cs,
            found,
        )[a].info.id@ != spec_keep_found(cs, found)[b].info.id@ by {
            let keep = spec_keep_found(cs, found);
            if b < keep_dl.len() {
            } else {
                assert(keep[b] == cs.last());
                let m = choose|m: int| 0 <= m < dl.len() && keep_dl[a] == dl[m];
                assert(cs[m].info.id@ != cs[cs.len() - 1].info.id@);
            }
        }
    }
}

/// The newly discovered ports carry pairwise distinct identifiers, none of
/// which belongs to a current client.
pub proof fn lemma_new_ports_fresh(found: Seq<PortInfo>, cs: Seq<MultiSyncMidiClient>)
    ensures
        forall|a: int, b: int|
            0 <= a < b < spec_new_ports(found, cs).len() ==> spec_new_ports(found, cs)[a].id@
                != spec_new_ports(found, cs)[b].id@,
        forall|k: int|
            0 <= k < spec_new_ports(found, cs).len() ==> !has_id(
                cs,
                #[trigger] spec_new_ports(found, cs)[k].id@,
            ),
    decreases found.len(),
{
    if found.len() > 0 {
        lemma_new_ports_fresh(found.drop_last(), cs);
        let rest = spec_new_ports(found.drop_last(), cs);
        let news = spec_new_ports(found, cs);
        let last = found.last();
        if !(has_id(cs, last.id@) || info_has_id(rest, last.id@)) {
            assert forall|a: int, b: int|
                0 <= a < b < news.len() implies news[a].id@ != news[b].id@ by {
                if b == news.len() - 1 {
                    assert(news[b] == last);
                    assert(!info_has_id(rest, last.id@));
                    assert(rest[a].id@ != last.id@);
                }
            }
        }
    }
}

/// Every port in `spec_new_ports` is one of the reported ports.
pub proof fn lemma_new_ports_sound(found: Seq<PortInfo>, cs: Seq<MultiSyncMidiClient>)
    ensures
        forall|k: int|
            0 <= k < spec_new_ports(found, cs).len() ==> info_has_id(
                found,
                #[trigger] spec_new_ports(found, cs)[k].id@,
            ),
    decreases found.len(),
{
    if found.len() > 0 {
        lemma_new_ports_sound(found.drop_last(), cs);
        let rest = spec_new_ports(found.drop_last(), cs);
        assert forall|k: int|
            0 <= k < spec_new_ports(found, cs).len() implies info_has_id(
            found,
            #[trigger] spec_new_ports(found, cs)[k].id@,
        ) by {
            if k < rest.len() {
                assert(info_has_id(found.drop_last(), rest[k].id@));
                let i = choose|i: int|
                    0 <= i < found.drop_last().len() && found.drop_last()[i].id@ == rest[k].id@;
                assert(found[i].id@ == rest[k].id@);
            } else {
                assert(spec_new_ports(found, cs)[k] == found.last());
                assert(found[found.len() - 1].id@ == found.last().id@);
            }
        }
    }
}

/// A reported port that matches no current client appears among the new
/// ports.
pub proof fn lemma_new_ports_complete(
    found: Seq<PortInfo>,
    cs: Seq<MultiSyncMidiClient>,
    id: Seq<char>,
)
    requires
        info_has_id(found, id),
        !has_id(cs, id),
    ensures
        info_has_id(spec_new_ports(found, cs), id),
    decreases found.len(),
{
    let rest = spec_new_ports(found.drop_last(), cs);
    let last = found.last();
    if last.id@ == id {
        if !(has_id(cs, last.id@) || info_has_id(rest, last.id@)) {
            let n = spec_new_ports(found, cs);
            assert(n[n.len() - 1].id@ == id);
        }
    } else {
        let i = choose|i: int| 0 <= i < found.len() && found[i].id@ == id;
        assert(i < found.len() - 1);
        assert(found.drop_last()[i].id@ == id);
        lemma_new_ports_complete(found.drop_last(), cs, id);
        let k = choose|k: int| 0 <= k < rest.len() && rest[k].id@ == id;
        if !(has_id(cs, last.id@) || info_has_id(rest, last.id@)) {
            assert(spec_new_ports(found, cs)[k].id@ == id);
        }
    }
}

} // verus!
