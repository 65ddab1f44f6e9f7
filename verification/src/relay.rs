//! Relay Bank: the single owner of the relay output levels.
//!
//! The bank models the output levels as a vector of booleans (energized /
//! de-energized). A command names a relay and an action; processing a command
//! drives the output and emits exactly one telemetry event carrying the level
//! read back after the write, so telemetry reflects ground truth even when a
//! hardware write silently fails.

use vstd::prelude::*;

use crate::telemetry::TelemetryEvent;

verus! {

/// The action part of a relay command: flip the output, drive it high or low,
/// or report the current level without writing.
#[derive(Copy, Clone, Debug, PartialEq, Eq, Structural)]
pub enum RelayAction {
    Toggle,
    On,
    Off,
    Status,
}

/// A command for one relay: an index into the bank and an action.
#[derive(Copy, Clone, Debug, PartialEq, Eq, Structural)]
pub struct RelayCommand {
    pub id: usize,
    pub action: RelayAction,
}

/// The output level an action asks for, given the current level:
/// `Toggle` flips, `On` drives high, `Off` drives low, and `Status` keeps
/// the level as it is.
pub open spec fn spec_target(action: RelayAction, current: bool) -> bool {
    match action {
        RelayAction::Toggle => !current,
        RelayAction::On => true,
        RelayAction::Off => false,
        RelayAction::Status => current,
    }
}

/// Whether an action performs a hardware write (`Status` does not).
pub open spec fn spec_writes(action: RelayAction) -> bool {
    !(action is Status)
}

/// The levels after one command: if the action writes and the write took
/// effect, the addressed relay holds the requested level; a failed write and
/// `Status` leave every level unchanged.
pub open spec fn spec_step(levels: Seq<bool>, cmd: RelayCommand, write_ok: bool) -> Seq<bool> {
    if spec_writes(cmd.action) && write_ok {
        levels.update(cmd.id as int, spec_target(cmd.action, levels[cmd.id as int]))
    } else {
        levels
    }
}

/// The telemetry event one command emits: the addressed relay paired with the
/// level read back after processing, never the requested level.
pub open spec fn spec_event(levels: Seq<bool>, cmd: RelayCommand, write_ok: bool) -> TelemetryEvent {
    TelemetryEvent::Relay { id: cmd.id, state: spec_step(levels, cmd, write_ok)[cmd.id as int] }
}

/// The levels after a whole sequence of commands, each paired with whether its
/// hardware write took effect.
pub open spec fn spec_run_levels(levels: Seq<bool>, cmds: Seq<(RelayCommand, bool)>) -> Seq<bool>
    decreases cmds.len(),
{
    if cmds.len() == 0 {
        levels
    } else {
        spec_step(spec_run_levels(levels, cmds.drop_last()), cmds.last().0, cmds.last().1)
    }
}

/// The telemetry events a sequence of commands emits, in processing order:
/// one event per command.
pub open spec fn spec_run_events(levels: Seq<bool>, cmds: Seq<(RelayCommand, bool)>) -> Seq<
    TelemetryEvent,
>
    decreases cmds.len(),
{
    if cmds.len() == 0 {
        Seq::empty()
    } else {
        spec_run_events(levels, cmds.drop_last()) + seq![
            spec_event(spec_run_levels(levels, cmds.drop_last()), cmds.last().0, cmds.last().1),
        ]
    }
}

/// The bank of relay outputs. The vector holds the last level read back from
/// each output; no other component writes these levels.
pub struct RelayBank {
    levels: Vec<bool>,
}

impl RelayBank {
    /// The levels of all outputs, lowest index first.
    pub closed spec fn view(&self) -> Seq<bool> {
        self.levels@
    }

    /// A bank of `n` relays, all de-energized.
    pub fn new(n: usize) -> (bank: RelayBank)
        ensures
            bank@.len() == n,
            forall|i: int| 0 <= i < n ==> !bank@[i],
    {
        let mut levels: Vec<bool> = Vec::new();
        let mut i: usize = 0;
        while i < n
            invariant
                i <= n,
                levels@.len() == i,
                forall|j: int| 0 <= j < i ==> !levels@[j],
            decreases n - i,
        {
            levels.push(false);
            i = i + 1;
        }
        RelayBank { levels }
    }

    /// How many relays the bank owns.
    pub fn len(&self) -> (n: usize)
        ensures
            n == self@.len(),
    {
        self.levels.len()
    }

    /// The last level read back for one relay.
    pub fn level(&self, id: usize) -> (level: bool)
        requires
            id < self@.len(),
        ensures
            level == self@[id as int],
    {
        self.levels[id]
    }

    /// The level a command asks the hardware to drive, or `None` when the
    /// action performs no write (`Status`).
    pub fn plan(&self, cmd: &RelayCommand) -> (target: Option<bool>)
        requires
            cmd.id < self@.len(),
        ensures
            target == if spec_writes(cmd.action) {
                Some(spec_target(cmd.action, self@[cmd.id as int]))
            } else {
                None::<bool>
            },
    {
        match cmd.action {
            RelayAction::Toggle => Some(!self.levels[cmd.id]),
            RelayAction::On => Some(true),
            RelayAction::Off => Some(false),
            RelayAction::Status => None,
        }
    }

    /// Records the level read back from one output after a command and emits
    /// the one telemetry event for it. The event carries the observed level,
    /// whatever the command asked for.
    pub fn record(&mut self, id: usize, observed: bool) -> (ev: TelemetryEvent)
        requires
            id < old(self)@.len(),
        ensures
            final(self)@ == old(self)@.update(id as int, observed),
            ev == (TelemetryEvent::Relay { id, state: observed }),
    {
        self.levels.set(id, observed);
        TelemetryEvent::Relay { id, state: self.levels[id] }
    }

    /// Processes one command: plans the write, applies it when the hardware
    /// accepted it (`write_ok`), and emits exactly one telemetry event with
    /// the level read back afterwards. A failed write leaves the level as it
    /// was, and the event reports that unchanged level.
    pub fn process(&mut self, cmd: &RelayCommand, write_ok: bool) -> (ev: TelemetryEvent)
        requires
            cmd.id < old(self)@.len(),
        ensures
            final(self)@ == spec_step(old(self)@, *cmd, write_ok),
            ev == spec_event(old(self)@, *cmd, write_ok),
    {
        let observed = match self.plan(cmd) {
            Some(level) => if write_ok {
                level
            } else {
                self.level(cmd.id)
            },
            None => self.level(cmd.id),
        };
        let ev = self.record(cmd.id, observed);
        assert(self@ =~= spec_step(old(self)@, *cmd, write_ok));
        ev
    }

    /// Processes one command defensively: a command whose id lies outside the
    /// bank is dropped — no level changes and no event is emitted — since ids
    /// originate from untrusted remote input. The device logs such a drop
    /// rather than crash.
    pub fn process_checked(&mut self, cmd: &RelayCommand, write_ok: bool) -> (ev: Option<
        TelemetryEvent,
    >)
        ensures
            cmd.id < old(self)@.len() ==> final(self)@ == spec_step(old(self)@, *cmd, write_ok)
                && ev == Some(spec_event(old(self)@, *cmd, write_ok)),
            cmd.id >= old(self)@.len() ==> final(self)@ == old(self)@ && ev is None,
    {
        if cmd.id < self.levels.len() {
            Some(self.process(cmd, write_ok))
        } else {
            None
        }
    }

    /// Processes a whole sequence of commands in arrival order, returning the
    /// emitted telemetry events: exactly one per command, in the same order.
    pub fn process_all(&mut self, cmds: &Vec<(RelayCommand, bool)>) -> (evs: Vec<TelemetryEvent>)
        requires
            forall|k: int| 0 <= k < cmds@.len() ==> (#[trigger] cmds@[k]).0.id < old(self)@.len(),
        ensures
            final(self)@ == spec_run_levels(old(self)@, cmds@),
            evs@ == spec_run_events(old(self)@, cmds@),
    {
        let mut evs: Vec<TelemetryEvent> = Vec::new();
        let n = cmds.len();
        let mut i: usize = 0;
        proof {
            lemma_run_levels_len(old(self)@, cmds@.take(0));
        }
        while i < n
            invariant
                n == cmds@.len(),
                i <= n,
                forall|k: int| 0 <= k < cmds@.len() ==> (#[trigger] cmds@[k]).0.id
                    < old(self)@.len(),
                self@ == spec_run_levels(old(self)@, cmds@.take(i as int)),
                evs@ == spec_run_events(old(self)@, cmds@.take(i as int)),
            decreases n - i,
        {
            proof {
                lemma_run_levels_len(old(self)@, cmds@.take(i as int));
            }
            let (cmd, write_ok) = cmds[i];
            let ev = self.process(&cmd, write_ok);
            evs.push(ev);
            proof {
                assert(cmds@.take(i + 1).drop_last() =~= cmds@.take(i as int));
                assert(cmds@.take(i + 1).last() == cmds@[i as int]);
            }
            i = i + 1;
        }
        proof {
            assert(cmds@.take(n as int) =~= cmds@);
        }
        evs
    }
}

/// Processing never changes how many relays the bank owns.
pub proof fn lemma_run_levels_len(levels: Seq<bool>, cmds: Seq<(RelayCommand, bool)>)
    requires
        forall|k: int| 0 <= k < cmds.len() ==> (#[trigger] cmds[k]).0.id < levels.len(),
    ensures
        spec_run_levels(levels, cmds).len() == levels.len(),
    decreases cmds.len(),
{
    if cmds.len() > 0 {
        assert(forall|k: int|
            0 <= k < cmds.drop_last().len() ==> (#[trigger] cmds.drop_last()[k]).0.id
                < levels.len());
        lemma_run_levels_len(levels, cmds.drop_last());
    }
}

/// Read-back invariant: every command emits exactly one relay event, naming
/// the command's relay and carrying the level the bank actually holds after
/// processing; when the write failed, that is the unchanged old level, never
/// the requested one.
pub proof fn lemma_read_back(levels: Seq<bool>, cmd: RelayCommand, write_ok: bool)
    requires
        cmd.id < levels.len(),
    ensures
        spec_event(levels, cmd, write_ok) == (TelemetryEvent::Relay {
            id: cmd.id,
            state: spec_step(levels, cmd, write_ok)[cmd.id as int],
        }),
        !write_ok ==> spec_step(levels, cmd, write_ok)[cmd.id as int] == levels[cmd.id as int],
{
}

/// Ordering: a sequence of commands yields exactly one event per command, and
/// the event of the command at position `k` stands at position `k` of the
/// event stream — commands submitted in order `c1` then `c2` have their events
/// in the same relative order.
pub proof fn lemma_fifo(levels: Seq<bool>, cmds: Seq<(RelayCommand, bool)>, k: int)
    requires
        0 <= k < cmds.len(),
    ensures
        spec_run_events(levels, cmds).len() == cmds.len(),
        spec_run_events(levels, cmds)[k] == spec_event(
            spec_run_levels(levels, cmds.take(k)),
            cmds[k].0,
            cmds[k].1,
        ),
    decreases cmds.len(),
{
    if k == cmds.len() - 1 {
        assert(cmds.take(k) =~= cmds.drop_last());
        if cmds.len() > 1 {
            lemma_fifo(levels, cmds.drop_last(), 0);
        }
    } else {
        lemma_fifo(levels, cmds.drop_last(), k);
        assert(cmds.drop_last().take(k) =~= cmds.take(k));
        assert(cmds.drop_last()[k] == cmds[k]);
    }
}

/// Idempotence of `On` and `Off`: applying the same level-setting command
/// twice (with effective writes) leaves the bank exactly as applying it once.
pub proof fn lemma_on_off_idempotent(levels: Seq<bool>, cmd: RelayCommand)
    requires
        cmd.id < levels.len(),
        cmd.action is On || cmd.action is Off,
    ensures
        spec_step(spec_step(levels, cmd, true), cmd, true) == spec_step(levels, cmd, true),
{
    assert(spec_step(spec_step(levels, cmd, true), cmd, true) =~= spec_step(levels, cmd, true));
}

/// Toggling twice (with effective writes) restores the original levels.
pub proof fn lemma_toggle_twice(levels: Seq<bool>, cmd: RelayCommand)
    requires
        cmd.id < levels.len(),
        cmd.action is Toggle,
    ensures
        spec_step(spec_step(levels, cmd, true), cmd, true) == levels,
{
    assert(spec_step(spec_step(levels, cmd, true), cmd, true) =~= levels);
}

} // verus!
