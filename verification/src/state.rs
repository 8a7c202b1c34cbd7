//! Persistent supervisor state: which upgrades were applied, and the last chain
//! status observed. The latter lets an upgrade be applied *before* relaunching when
//! the old node died after the trigger was reached (for example because it could
//! not execute a new runtime).

use vstd::prelude::*;

use crate::plan::{name_set, ChainStatus, PlanView};
use crate::text;
use crate::time;

verus! {

/// The permissions of the state file and of plan files, which others than the
/// supervisor's user have to read.
pub const FILE_MODE: u32 = 0o644;

#[derive(Debug)]
pub struct State {
    pub applied: Vec<AppliedUpgrade>,
    pub last_observed: Option<Observed>,
}

#[derive(Debug)]
pub struct AppliedUpgrade {
    pub name: String,
    pub applied_at: String,
    pub observed: Option<ChainStatus>,
}

#[derive(Debug)]
pub struct Observed {
    pub status: ChainStatus,
    pub observed_at: String,
}

/// What an entry for an applied upgrade says.
pub struct AppliedView {
    pub name: Seq<char>,
    pub applied_at: Seq<char>,
    pub observed: Option<ChainStatus>,
}

/// What an observation says.
pub struct ObservedView {
    pub status: ChainStatus,
    pub observed_at: Seq<char>,
}

/// What the state says.
#[verifier::ext_equal]
pub struct StateView {
    pub applied: Seq<AppliedView>,
    pub last_observed: Option<ObservedView>,
}

impl View for AppliedUpgrade {
    type V = AppliedView;

    open spec fn view(&self) -> AppliedView {
        AppliedView {
            name: self.name@,
            applied_at: self.applied_at@,
            observed: self.observed,
        }
    }
}

impl View for Observed {
    type V = ObservedView;

    open spec fn view(&self) -> ObservedView {
        ObservedView { status: self.status, observed_at: self.observed_at@ }
    }
}

impl View for State {
    type V = StateView;

    open spec fn view(&self) -> StateView {
        StateView {
            applied: self.applied@.map_values(|a: AppliedUpgrade| a@),
            last_observed: match self.last_observed {
                Some(o) => Some(o@),
                None => None,
            },
        }
    }
}

impl StateView {
    /// The state of a fresh installation.
    pub open spec fn initial() -> StateView {
        StateView { applied: Seq::empty(), last_observed: None }
    }

    /// The names of the applied upgrades, in the order of their application.
    pub open spec fn names(self) -> Seq<Seq<char>> {
        self.applied.map_values(|a: AppliedView| a.name)
    }

    /// The state after upgrade `name` was applied at `now`.
    pub open spec fn with_applied(
        self,
        name: Seq<char>,
        observed: Option<ChainStatus>,
        now: nat,
    ) -> StateView {
        StateView {
            applied: self.applied.push(
                AppliedView { name, applied_at: time::rfc3339(now), observed },
            ),
            last_observed: self.last_observed,
        }
    }

    /// The state after `status` was seen at `now`.
    pub open spec fn with_observed(self, status: ChainStatus, now: nat) -> StateView {
        StateView {
            applied: self.applied,
            last_observed: Some(ObservedView { status, observed_at: time::rfc3339(now) }),
        }
    }
}

impl Default for State {
    fn default() -> (r: State)
        ensures
            r@ == StateView::initial(),
    {
        State { applied: Vec::new(), last_observed: None }
    }
}

impl State {
    /// The names of the applied upgrades.
    pub fn applied_names(&self) -> (r: Vec<String>)
        ensures
            text::texts(r@) == self@.names(),
            name_set(r@) == self@.names().to_set(),
    {
        let mut r: Vec<String> = Vec::new();
        let mut i: usize = 0;
        while i < self.applied.len()
            invariant
                i <= self.applied@.len(),
                text::texts(r@) == self@.names().take(i as int),
            decreases self.applied@.len() - i,
        {
            let ghost before = text::texts(r@);
            r.push(self.applied[i].name.clone());
            assert(text::texts(r@) =~= before.push(self.applied@[i as int].name@));
            assert(self@.names().take(i + 1) =~= before.push(self.applied@[i as int].name@));
            i = i + 1;
        }
        assert(self@.names().take(self@.names().len() as int) == self@.names());
        r
    }

    /// Records that upgrade `name` was applied, `now` seconds after the start of 1970.
    pub fn record_applied(&mut self, name: &str, observed: Option<ChainStatus>, now: u64)
        requires
            now < time::TIMESTAMP_END,
        ensures
            final(self)@ == old(self)@.with_applied(name@, observed, now as nat),
    {
        let entry = AppliedUpgrade {
            name: name.to_string(),
            applied_at: time::timestamp(now),
            observed,
        };
        self.applied.push(entry);
        assert(self@.applied =~= old(self)@.applied.push(entry@));
    }

    /// Records what the chain looked like, `now` seconds after the start of 1970.
    pub fn observe(&mut self, status: ChainStatus, now: u64)
        requires
            now < time::TIMESTAMP_END,
        ensures
            final(self)@ == old(self)@.with_observed(status, now as nat),
    {
        self.last_observed = Some(Observed { status, observed_at: time::timestamp(now) });
        assert(self@.applied =~= old(self)@.applied);
    }
}

/// An upgrade that is recorded as applied is not due again, and recording it makes
/// no other plan due or undue.
pub proof fn applied_plan_is_not_due(
    state: StateView,
    plan: PlanView,
    name: Seq<char>,
    observed: Option<ChainStatus>,
    now: nat,
    status: ChainStatus,
)
    ensures
        plan.due(state.with_applied(name, observed, now).names().to_set(), status) == (plan.name
            != name && plan.due(state.names().to_set(), status)),
{
    let after = state.with_applied(name, observed, now);
    assert(after.names() =~= state.names().push(name));
    assert(after.names().to_set() =~= state.names().to_set().insert(name)) by {
        assert forall|n: Seq<char>|
            after.names().to_set().contains(n) == state.names().to_set().insert(name).contains(
                n,
            ) by {
            if state.names().contains(n) {
                let i = choose|i: int| 0 <= i < state.names().len() && state.names()[i] == n;
                assert(after.names()[i] == n);
            }
            if n == name {
                assert(after.names()[state.names().len() as int] == n);
            }
        }
    }
}

/// Recording an upgrade leaves the last observation alone, and observing leaves the
/// list of applied upgrades alone.
pub proof fn records_do_not_interfere(
    state: StateView,
    name: Seq<char>,
    observed: Option<ChainStatus>,
    status: ChainStatus,
    now: nat,
)
    ensures
        state.with_applied(name, observed, now).last_observed == state.last_observed,
        state.with_observed(status, now).names() == state.names(),
        state.with_observed(status, now).last_observed->0.status == status,
        state.with_applied(name, observed, now).names() == state.names().push(name),
{
    assert(state.with_applied(name, observed, now).names() =~= state.names().push(name));
}

} // verus!
