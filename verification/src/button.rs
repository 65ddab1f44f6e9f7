//! Button Monitor: debounced release-edge detection over polled input lines.
//!
//! The monitor keeps, per button, the raised/lowered level seen on the
//! previous poll. A toggle command fires for button `i` exactly when the
//! previous poll saw the line raised and the current poll sees it lowered
//! (active-low wiring: lowered means pressed). The stored level is updated on
//! every poll, whether or not a toggle fired.

use vstd::prelude::*;

use crate::relay::RelayAction;
use crate::relay::RelayCommand;

verus! {

/// The level remembered before observation `k` of one button: the initial
/// stored level for the first observation, afterwards the previous
/// observation.
pub open spec fn spec_prev(initial: bool, obs: Seq<bool>, k: int) -> bool {
    if k == 0 {
        initial
    } else {
        obs[k - 1]
    }
}

/// Whether observation `k` fires a toggle: the remembered level was raised
/// and the observed level is lowered — a raised-then-lowered adjacent pair.
pub open spec fn spec_fires(initial: bool, obs: Seq<bool>, k: int) -> bool {
    spec_prev(initial, obs, k) && !obs[k]
}

/// For each observation in a sequence, whether it fires a toggle.
pub open spec fn spec_fire_flags(initial: bool, obs: Seq<bool>) -> Seq<bool> {
    Seq::new(obs.len(), |k: int| spec_fires(initial, obs, k))
}

/// The toggle commands one full scan pass emits, in button order: one per
/// button whose stored level was raised while the current reading is lowered.
pub open spec fn spec_scan_commands(prev: Seq<bool>, now: Seq<bool>, n: int) -> Seq<RelayCommand>
    decreases n,
{
    if n <= 0 {
        Seq::empty()
    } else {
        spec_scan_commands(prev, now, n - 1) + if prev[n - 1] && !now[n - 1] {
            seq![RelayCommand { id: (n - 1) as usize, action: RelayAction::Toggle }]
        } else {
            Seq::empty()
        }
    }
}

/// The monitor's private state: the level last observed on each input line.
pub struct ButtonMonitor {
    states: Vec<bool>,
}

impl ButtonMonitor {
    /// The stored level per button, lowest index first.
    pub closed spec fn view(&self) -> Seq<bool> {
        self.states@
    }

    /// A monitor for `n` buttons, all initially remembered lowered, so the
    /// very first lowered reading cannot fire without a raised one before it.
    pub fn new(n: usize) -> (monitor: ButtonMonitor)
        ensures
            monitor@.len() == n,
            forall|i: int| 0 <= i < n ==> !monitor@[i],
    {
        let mut states: Vec<bool> = Vec::new();
        let mut i: usize = 0;
        while i < n
            invariant
                i <= n,
                states@.len() == i,
                forall|j: int| 0 <= j < i ==> !states@[j],
            decreases n - i,
        {
            states.push(false);
            i = i + 1;
        }
        ButtonMonitor { states }
    }

    /// How many buttons the monitor watches.
    pub fn len(&self) -> (n: usize)
        ensures
            n == self@.len(),
    {
        self.states.len()
    }

    /// Takes one observation of button `i` (`raised` is the line level) and
    /// says whether a toggle fires: exactly when the stored level was raised
    /// and the line now reads lowered. The stored level is set to the current
    /// reading in every case.
    pub fn observe(&mut self, i: usize, raised: bool) -> (fire: bool)
        requires
            i < old(self)@.len(),
        ensures
            fire == (old(self)@[i as int] && !raised),
            final(self)@ == old(self)@.update(i as int, raised),
    {
        let fire = self.states[i] && !raised;
        self.states.set(i, raised);
        fire
    }

    /// One full scan pass: observes every button once (`readings[i]` is the
    /// raised level of line `i`) and returns the toggle commands that fired,
    /// in button order.
    pub fn scan(&mut self, readings: &Vec<bool>) -> (cmds: Vec<RelayCommand>)
        requires
            readings@.len() == old(self)@.len(),
        ensures
            final(self)@ == readings@,
            cmds@ == spec_scan_commands(old(self)@, readings@, old(self)@.len() as int),
    {
        let mut cmds: Vec<RelayCommand> = Vec::new();
        let n = self.states.len();
        let mut i: usize = 0;
        while i < n
            invariant
                n == readings@.len(),
                n == old(self)@.len(),
                self@.len() == n,
                i <= n,
                forall|j: int| i <= j < n ==> self@[j] == old(self)@[j],
                forall|j: int| 0 <= j < i ==> self@[j] == readings@[j],
                cmds@ == spec_scan_commands(old(self)@, readings@, i as int),
            decreases n - i,
        {
            let fire = self.observe(i, readings[i]);
            if fire {
                cmds.push(RelayCommand { id: i, action: RelayAction::Toggle });
            }
            i = i + 1;
        }
        assert(self@ =~= readings@);
        cmds
    }

    /// Feeds a whole sequence of observations of one button through the
    /// monitor and returns, per observation, whether a toggle fired.
    pub fn observe_run(&mut self, i: usize, obs: &Vec<bool>) -> (fires: Vec<bool>)
        requires
            i < old(self)@.len(),
        ensures
            fires@ == spec_fire_flags(old(self)@[i as int], obs@),
            final(self)@ == if obs@.len() == 0 {
                old(self)@
            } else {
                old(self)@.update(i as int, obs@.last())
            },
    {
        let mut fires: Vec<bool> = Vec::new();
        let n = obs.len();
        let mut k: usize = 0;
        while k < n
            invariant
                i < old(self)@.len(),
                n == obs@.len(),
                k <= n,
                self@.len() == old(self)@.len(),
                forall|j: int| 0 <= j < self@.len() && j != i ==> self@[j] == old(self)@[j],
                self@[i as int] == spec_prev(old(self)@[i as int], obs@, k as int),
                fires@ == spec_fire_flags(old(self)@[i as int], obs@).take(k as int),
            decreases n - k,
        {
            let fire = self.observe(i, obs[k]);
            fires.push(fire);
            proof {
                assert(spec_fire_flags(old(self)@[i as int], obs@).take(k + 1)
                    =~= spec_fire_flags(old(self)@[i as int], obs@).take(k as int) + seq![
                    spec_fires(old(self)@[i as int], obs@, k as int),
                ]);
            }
            k = k + 1;
        }
        proof {
            assert(spec_fire_flags(old(self)@[i as int], obs@).take(n as int) =~= spec_fire_flags(
                old(self)@[i as int],
                obs@,
            ));
            if n > 0 {
                assert(self@ =~= old(self)@.update(i as int, obs@.last()));
            } else {
                assert(self@ =~= old(self)@);
            }
        }
        fires
    }
}

/// Debounce correctness: a toggle fires at observation `k` if and only if the
/// observations hold a raised-then-lowered adjacent pair at `k` (counting the
/// initial stored level before the first observation).
pub proof fn lemma_debounce(initial: bool, obs: Seq<bool>, k: int)
    requires
        0 <= k < obs.len(),
    ensures
        spec_fire_flags(initial, obs).len() == obs.len(),
        spec_fire_flags(initial, obs)[k] == ((if k == 0 {
            initial
        } else {
            obs[k - 1]
        }) && !obs[k]),
{
}

/// Repeated lowered observations without an intervening raised one never fire
/// more than once: after a lowered reading at `j`, with the line never seen
/// raised from `j` up to `k`, observation `k` does not fire.
pub proof fn lemma_no_repeat_fire(initial: bool, obs: Seq<bool>, j: int, k: int)
    requires
        0 <= j < k < obs.len(),
        forall|m: int| j <= m <= k ==> !obs[m],
    ensures
        !spec_fire_flags(initial, obs)[k],
{
    assert(!obs[k - 1]);
}

} // verus!
