//! The debounce worker as a state machine: what it holds between two
//! cycles, what one cycle has to do, and what it holds afterwards.
//!
//! The worker itself only decides. Whoever drives it receives the
//! snapshots, waits, carries out the hooks and the notifications that a plan
//! names, and reports back how the notifications went.
//!
//! One cycle: take the wait from `dampening_wait`; after a wait, take the
//! latest of the snapshots that came in meanwhile (`latest_snapshot`); plan
//! the cycle (`plan_cycle`); carry the plan out, the hooks first and in
//! their order, then the IPv6 notification, then the IPv4 notification;
//! finish the cycle (`finish_cycle`).

use crate::addr::{Ipv4Address, Ipv6Address};
use crate::config::{Config, Hook};
use crate::select::{select_best, spec_best_v4, spec_best_v6};
use crate::snapshot::{entries_map, Entry, Snapshot};
use crate::{dampening_wait, spec_dampening_wait, MIN_UPDATE_INTERVAL_S};
use vstd::prelude::*;

verus! {

/// One thing to do for a hook.
#[derive(Clone, Debug, PartialEq, Eq)]
pub enum HookAction {
    /// Write the firewall address sets of the snapshot to this file.
    WriteNftSets { outfile: String },
    /// Run this command in a shell.
    Shell { cmd: String },
}

/// A hook action as a plain value.
pub enum HookActionView {
    WriteNftSets { outfile: Seq<char> },
    Shell { cmd: Seq<char> },
}

impl View for HookAction {
    type V = HookActionView;

    open spec fn view(&self) -> HookActionView {
        match self {
            HookAction::WriteNftSets { outfile } => HookActionView::WriteNftSets {
                outfile: outfile@,
            },
            HookAction::Shell { cmd } => HookActionView::Shell { cmd: cmd@ },
        }
    }
}

/// What a cycle has to do.
#[derive(Debug)]
pub struct CyclePlan {
    /// Whether the snapshot differs from the one applied last. Where it
    /// does not, the plan names nothing to do.
    pub changed: bool,
    /// The hook actions, in the order in which to carry them out.
    pub hook_actions: Vec<HookAction>,
    /// The IPv6 address to notify the service of, if any.
    pub notify_v6: Option<Ipv6Address>,
    /// The IPv4 address to notify the service of, if any.
    pub notify_v4: Option<Ipv4Address>,
}

/// A plan as a plain value.
pub struct CyclePlanView {
    pub changed: bool,
    pub hook_actions: Seq<HookActionView>,
    pub notify_v6: Option<Ipv6Address>,
    pub notify_v4: Option<Ipv4Address>,
}

/// The hook actions as plain values.
pub open spec fn action_views(actions: Seq<HookAction>) -> Seq<HookActionView> {
    Seq::new(actions.len(), |i: int| actions[i]@)
}

impl View for CyclePlan {
    type V = CyclePlanView;

    open spec fn view(&self) -> CyclePlanView {
        CyclePlanView {
            changed: self.changed,
            hook_actions: action_views(self.hook_actions@),
            notify_v6: self.notify_v6,
            notify_v4: self.notify_v4,
        }
    }
}

/// What the worker holds between two cycles.
#[derive(Debug)]
pub struct WorkerState {
    /// The snapshot that was applied last.
    pub current_state: Option<Snapshot>,
    /// The IPv4 address that the service was notified of last.
    pub current_best4: Option<Ipv4Address>,
    /// The IPv6 address that the service was notified of last.
    pub current_best6: Option<Ipv6Address>,
    /// The second at which the last cycle ended; `None` before the first
    /// cycle of a worker that runs one cycle only.
    pub last_cycle_end: Option<u64>,
}

/// A worker's state as a plain value.
pub struct WorkerView {
    pub applied: Option<Seq<Entry>>,
    pub best4: Option<Ipv4Address>,
    pub best6: Option<Ipv6Address>,
    pub anchor: Option<u64>,
}

impl View for WorkerState {
    type V = WorkerView;

    open spec fn view(&self) -> WorkerView {
        WorkerView {
            applied: match self.current_state {
                Some(s) => Some(s@),
                None => None,
            },
            best4: self.current_best4,
            best6: self.current_best6,
            anchor: self.last_cycle_end,
        }
    }
}

/// The actions of one hook: first the file, then the command.
pub open spec fn one_hook_actions(hook: Hook) -> Seq<HookActionView> {
    (match hook.nft_sets_outfile {
        Some(outfile) => seq![HookActionView::WriteNftSets { outfile: outfile@ }],
        None => Seq::empty(),
    }) + (match hook.shell {
        Some(cmd) => seq![HookActionView::Shell { cmd: cmd@ }],
        None => Seq::empty(),
    })
}

/// The actions of a list of hooks, hook after hook.
pub open spec fn all_hook_actions(hooks: Seq<Hook>) -> Seq<HookActionView>
    decreases hooks.len(),
{
    if hooks.len() == 0 {
        Seq::empty()
    } else {
        all_hook_actions(hooks.drop_last()) + one_hook_actions(hooks.last())
    }
}

/// The actions of the hooks of the policy.
pub open spec fn spec_hook_actions(conf: Config) -> Seq<HookActionView> {
    match conf.hooks {
        Some(hooks) => all_hook_actions(hooks@),
        None => Seq::empty(),
    }
}

/// The state before the first cycle. A worker that is to run on starts its
/// clock at `now`; one that runs one cycle only has no clock yet, so that
/// its cycle does not wait.
pub open spec fn spec_initial(oneshot: bool, now: u64) -> WorkerView {
    WorkerView {
        applied: None,
        best4: None,
        best6: None,
        anchor: if oneshot {
            None
        } else {
            Some(now)
        },
    }
}

/// The seconds to wait before the cycle that starts at `now`: what is left
/// of the minimum interval since the last cycle ended. A clock that went
/// backwards counts as no time passed.
pub open spec fn spec_wait(st: WorkerView, now: u64) -> u64 {
    match st.anchor {
        None => 0,
        Some(end) => if now >= end {
            spec_dampening_wait((now - end) as u64)
        } else {
            MIN_UPDATE_INTERVAL_S
        },
    }
}

/// The snapshot that a cycle works on: the last of those that came in
/// during the wait, or the one that started the cycle where none came in.
pub open spec fn spec_latest(first: Seq<Entry>, drained: Seq<Seq<Entry>>) -> Seq<Entry> {
    if drained.len() == 0 {
        first
    } else {
        drained.last()
    }
}

/// Whether the candidate differs from the snapshot applied last. Before any
/// snapshot was applied, every candidate does.
pub open spec fn spec_changed(st: WorkerView, candidate: Seq<Entry>) -> bool {
    match st.applied {
        Some(applied) => entries_map(applied) != entries_map(candidate),
        None => true,
    }
}

/// The plan that names nothing to do.
pub open spec fn idle_plan() -> CyclePlanView {
    CyclePlanView { changed: false, hook_actions: Seq::empty(), notify_v6: None, notify_v4: None }
}

/// The plan of a cycle. An unchanged candidate calls for nothing. A changed
/// one calls for every hook action and, for each family, for a notification
/// where the family has a selection that differs from the address notified
/// last.
pub open spec fn spec_plan(st: WorkerView, candidate: Seq<Entry>, conf: Config) -> CyclePlanView {
    if !spec_changed(st, candidate) {
        idle_plan()
    } else {
        CyclePlanView {
            changed: true,
            hook_actions: spec_hook_actions(conf),
            notify_v6: if spec_best_v6(candidate, conf.enable_ipv6) != st.best6 {
                spec_best_v6(candidate, conf.enable_ipv6)
            } else {
                None
            },
            notify_v4: if spec_best_v4(candidate, conf.enable_ipv4) != st.best4 {
                spec_best_v4(candidate, conf.enable_ipv4)
            } else {
                None
            },
        }
    }
}

/// The state after a cycle that ended at `now`. A changed candidate becomes
/// the snapshot applied last, however the notifications went. An address
/// becomes the address notified last only where its notification succeeded.
/// The clock starts anew in every case.
pub open spec fn spec_finish(
    st: WorkerView,
    candidate: Seq<Entry>,
    plan: CyclePlanView,
    v6_ok: bool,
    v4_ok: bool,
    now: u64,
) -> WorkerView {
    WorkerView {
        applied: if plan.changed {
            Some(candidate)
        } else {
            st.applied
        },
        best4: if plan.notify_v4 is Some && v4_ok {
            plan.notify_v4
        } else {
            st.best4
        },
        best6: if plan.notify_v6 is Some && v6_ok {
            plan.notify_v6
        } else {
            st.best6
        },
        anchor: Some(now),
    }
}

/// The actions of the hooks of the policy, in the order in which to carry
/// them out.
pub fn hook_actions(conf: &Config) -> (actions: Vec<HookAction>)
    ensures
        action_views(actions@) == spec_hook_actions(*conf),
{
    let mut actions: Vec<HookAction> = Vec::new();
    match &conf.hooks {
        Some(hooks) => {
            let mut i: usize = 0;
            assert(hooks@.subrange(0, 0) =~= Seq::<Hook>::empty());
            assert(action_views(actions@) =~= all_hook_actions(hooks@.subrange(0, 0)));
            while i < hooks.len()
                invariant
                    i <= hooks@.len(),
                    action_views(actions@) == all_hook_actions(hooks@.subrange(0, i as int)),
                decreases hooks.len() - i,
            {
                let ghost before = action_views(actions@);
                let hook = &hooks[i];
                proof {
                    let upto = hooks@.subrange(0, i + 1);
                    assert(upto.drop_last() =~= hooks@.subrange(0, i as int));
                    assert(upto.last() == *hook);
                }
                match &hook.nft_sets_outfile {
                    Some(outfile) => {
                        actions.push(HookAction::WriteNftSets { outfile: outfile.clone() });
                    },
                    None => {},
                }
                match &hook.shell {
                    Some(cmd) => {
                        actions.push(HookAction::Shell { cmd: cmd.clone() });
                    },
                    None => {},
                }
                assert(action_views(actions@) =~= before + one_hook_actions(*hook));
                i += 1;
            }
            assert(hooks@.subrange(0, i as int) =~= hooks@);
        },
        None => {
            assert(action_views(actions@) =~= Seq::<HookActionView>::empty());
        },
    }
    actions
}

/// The snapshot that a cycle works on, of the one that started the cycle
/// and those that came in during the wait, in the order in which they came.
pub fn latest_snapshot(first: Snapshot, drained: Vec<Snapshot>) -> (candidate: Snapshot)
    ensures
        candidate@ == spec_latest(first@, Seq::new(drained@.len(), |i: int| drained@[i]@)),
{
    let mut drained = drained;
    let ghost all = drained@;
    match drained.pop() {
        Some(last) => {
            assert(last == all.last());
            last
        },
        None => first,
    }
}

impl WorkerState {
    /// The state before the first cycle.
    pub fn new(oneshot: bool, now: u64) -> (st: WorkerState)
        ensures
            st@ == spec_initial(oneshot, now),
    {
        WorkerState {
            current_state: None,
            current_best4: None,
            current_best6: None,
            last_cycle_end: if oneshot {
                None
            } else {
                Some(now)
            },
        }
    }

    /// The seconds to wait before the cycle that starts at `now`.
    pub fn dampening_wait(&self, now: u64) -> (wait: u64)
        ensures
            wait == spec_wait(self@, now),
            wait <= MIN_UPDATE_INTERVAL_S,
    {
        match self.last_cycle_end {
            None => 0,
            Some(end) => {
                if now >= end {
                    dampening_wait(now - end)
                } else {
                    MIN_UPDATE_INTERVAL_S
                }
            },
        }
    }

    /// Whether the candidate differs from the snapshot applied last.
    pub fn is_changed(&self, candidate: &Snapshot) -> (changed: bool)
        ensures
            changed == spec_changed(self@, candidate@),
    {
        match &self.current_state {
            Some(applied) => !applied.equals(candidate),
            None => true,
        }
    }

    /// Plans the cycle that works on `candidate`.
    pub fn plan_cycle(&self, candidate: &Snapshot, conf: &Config) -> (plan: CyclePlan)
        ensures
            plan@ == spec_plan(self@, candidate@, *conf),
    {
        if !self.is_changed(candidate) {
            let plan = CyclePlan {
                changed: false,
                hook_actions: Vec::new(),
                notify_v6: None,
                notify_v4: None,
            };
            assert(plan@.hook_actions =~= Seq::<HookActionView>::empty());
            plan
        } else {
            let (new_best6, new_best4) = select_best(candidate, conf);
            let notify_v6 = match (new_best6, self.current_best6) {
                (Some(new), Some(cur)) => if new == cur {
                    None
                } else {
                    Some(new)
                },
                (Some(new), None) => Some(new),
                (None, _) => None,
            };
            let notify_v4 = match (new_best4, self.current_best4) {
                (Some(new), Some(cur)) => if new == cur {
                    None
                } else {
                    Some(new)
                },
                (Some(new), None) => Some(new),
                (None, _) => None,
            };
            CyclePlan { changed: true, hook_actions: hook_actions(conf), notify_v6, notify_v4 }
        }
    }

    /// The state after the cycle that worked on `candidate` under `plan` and
    /// ended at `now`. `v6_ok` and `v4_ok` tell whether the notification of
    /// the family succeeded; they count only where the plan names one.
    pub fn finish_cycle(
        self,
        candidate: Snapshot,
        plan: &CyclePlan,
        v6_ok: bool,
        v4_ok: bool,
        now: u64,
    ) -> (st: WorkerState)
        ensures
            st@ == spec_finish(self@, candidate@, plan@, v6_ok, v4_ok, now),
    {
        let current_best4 = match plan.notify_v4 {
            Some(new) => if v4_ok {
                Some(new)
            } else {
                self.current_best4
            },
            None => self.current_best4,
        };
        let current_best6 = match plan.notify_v6 {
            Some(new) => if v6_ok {
                Some(new)
            } else {
                self.current_best6
            },
            None => self.current_best6,
        };
        let current_state = if plan.changed {
            Some(candidate)
        } else {
            self.current_state
        };
        WorkerState { current_state, current_best4, current_best6, last_cycle_end: Some(now) }
    }
}

/// Snapshots that come in during one wait are collapsed into one cycle: the
/// plan is that of the last of them alone, and the earlier ones have no
/// part in it.
pub proof fn lemma_burst_collapses(
    st: WorkerView,
    first: Seq<Entry>,
    drained: Seq<Seq<Entry>>,
    conf: Config,
)
    requires
        drained.len() > 0,
    ensures
        spec_latest(first, drained) == drained.last(),
        spec_plan(st, spec_latest(first, drained), conf) == spec_plan(st, drained.last(), conf),
{
}

/// Of two snapshots delivered within one wait, the cycle reflects the later
/// one only.
pub proof fn lemma_two_snapshots_one_cycle(
    st: WorkerView,
    earlier: Seq<Entry>,
    later: Seq<Entry>,
    conf: Config,
)
    ensures
        spec_plan(st, spec_latest(earlier, seq![later]), conf) == spec_plan(st, later, conf),
{
    assert(seq![later].last() == later);
}

/// A snapshot that is delivered again right after its own cycle calls for
/// nothing, whatever that cycle did and however its notifications went.
pub proof fn lemma_same_snapshot_dispatches_once(
    st: WorkerView,
    snapshot: Seq<Entry>,
    again: Seq<Entry>,
    conf: Config,
    v6_ok: bool,
    v4_ok: bool,
    now: u64,
)
    requires
        entries_map(again) == entries_map(snapshot),
    ensures
        spec_plan(
            spec_finish(st, snapshot, spec_plan(st, snapshot, conf), v6_ok, v4_ok, now),
            again,
            conf,
        ) == idle_plan(),
{
}

/// The first snapshot that a worker gets always calls for its hooks.
pub proof fn lemma_first_snapshot_dispatches(
    oneshot: bool,
    now: u64,
    snapshot: Seq<Entry>,
    conf: Config,
)
    ensures
        spec_plan(spec_initial(oneshot, now), snapshot, conf).changed,
        spec_plan(spec_initial(oneshot, now), snapshot, conf).hook_actions == spec_hook_actions(
            conf,
        ),
        spec_plan(spec_initial(oneshot, now), snapshot, conf).notify_v6 == spec_best_v6(
            snapshot,
            conf.enable_ipv6,
        ),
        spec_plan(spec_initial(oneshot, now), snapshot, conf).notify_v4 == spec_best_v4(
            snapshot,
            conf.enable_ipv4,
        ),
{
}

/// A notification that failed is due again at the next change: the address
/// notified last stays as it was, so a changed snapshot with the same
/// selection calls for the notification once more. The snapshot is applied
/// all the same.
pub proof fn lemma_failed_notification_is_retried(
    st: WorkerView,
    snapshot: Seq<Entry>,
    next: Seq<Entry>,
    conf: Config,
    now: u64,
)
    requires
        spec_plan(st, snapshot, conf).notify_v6 is Some,
        entries_map(next) != entries_map(snapshot),
        spec_best_v6(next, conf.enable_ipv6) == spec_best_v6(snapshot, conf.enable_ipv6),
    ensures
        spec_finish(st, snapshot, spec_plan(st, snapshot, conf), false, false, now).applied
            == Some(snapshot),
        spec_finish(st, snapshot, spec_plan(st, snapshot, conf), false, false, now).best6
            == st.best6,
        spec_plan(
            spec_finish(st, snapshot, spec_plan(st, snapshot, conf), false, false, now),
            next,
            conf,
        ).notify_v6 == spec_plan(st, snapshot, conf).notify_v6,
{
}

/// Every cycle restarts the clock, also one that had nothing to do: right
/// after it the full interval is to wait, and once the interval has passed,
/// nothing.
pub proof fn lemma_clock_restarts(
    st: WorkerView,
    candidate: Seq<Entry>,
    plan: CyclePlanView,
    v6_ok: bool,
    v4_ok: bool,
    now: u64,
    later: u64,
)
    requires
        now <= later,
    ensures
        spec_wait(spec_finish(st, candidate, plan, v6_ok, v4_ok, now), now)
            == MIN_UPDATE_INTERVAL_S,
        later - now >= MIN_UPDATE_INTERVAL_S ==> spec_wait(
            spec_finish(st, candidate, plan, v6_ok, v4_ok, now),
            later,
        ) == 0,
        later - now < MIN_UPDATE_INTERVAL_S ==> spec_wait(
            spec_finish(st, candidate, plan, v6_ok, v4_ok, now),
            later,
        ) == MIN_UPDATE_INTERVAL_S - (later - now),
{
}

/// A worker that runs one cycle only does not wait before it.
pub proof fn lemma_oneshot_does_not_wait(now: u64, at: u64)
    ensures
        spec_wait(spec_initial(true, now), at) == 0,
{
}

} // verus!
