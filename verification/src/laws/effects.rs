//! What the functions that change something change, and what they leave alone.

use vstd::prelude::*;

use crate::download::Hasher;
use crate::plan::ChainStatus;
use crate::state::State;
use crate::supervisor::{
    Due, Observation, PollEvent, PollStage, PollView, Polled, Remark, Watch,
};
use crate::time;

verus! {

/// Recording an upgrade adds it behind those that are recorded, and changes nothing else.
pub proof fn recording_adds_one_upgrade(
    state: &mut State,
    name: &str,
    observed: Option<ChainStatus>,
    now: u64,
)
    requires
        call_ensures(State::record_applied, (state, name, observed, now), ()),
        now < time::TIMESTAMP_END,
    ensures
        final(state)@.applied.len() == old(state)@.applied.len() + 1,
        final(state)@.applied.drop_last() == old(state)@.applied,
        final(state)@.applied.last().name == name@,
        final(state)@.applied.last().observed == observed,
        final(state)@.last_observed == old(state)@.last_observed,
{
    assert(final(state)@.applied.drop_last() =~= old(state)@.applied);
}

/// Observing keeps the status, and changes nothing of what is recorded.
pub proof fn observing_keeps_the_status(state: &mut State, status: ChainStatus, now: u64)
    requires
        call_ensures(State::observe, (state, status, now), ()),
        now < time::TIMESTAMP_END,
    ensures
        final(state)@.applied == old(state)@.applied,
        final(state)@.last_observed matches Some(o) && o.status == status && o.observed_at
            == time::rfc3339(now as nat),
{
}

/// A digest is taken of everything that was fed, in order.
pub proof fn feeding_appends(hasher: &mut Hasher, data: &[u8])
    requires
        call_ensures(Hasher::update, (hasher, data), ()),
    ensures
        final(hasher).fed() == old(hasher).fed() + data@,
        (*final(hasher)) is Sha256 <==> (*old(hasher)) is Sha256,
{
    let sum = crate::download::ChecksumView::Sha256(Seq::empty());
    assert(old(hasher).suits(sum) == final(hasher).suits(sum));
}

/// A watch starts as one that has seen nothing and said nothing, with the state just saved.
pub proof fn watches_start_afresh(now: u128, w: Watch, name: Seq<char>)
    requires
        call_ensures(Watch::start, (now,), w),
    ensures
        w.saved_at() == now,
        !w.up(),
        w.nag(name) is None,
{
}

/// That the state was saved counts from now on.
pub proof fn saving_is_noted(w: &mut Watch, now: u128, name: Seq<char>)
    requires
        call_ensures(Watch::saved, (w, now), ()),
    ensures
        final(w).saved_at() == now,
        final(w).up() == old(w).up(),
        final(w).nag(name) == old(w).nag(name),
{
}

/// A node that does not answer is down from now on, and it is told whether it was up.
pub proof fn silence_is_noted(w: &mut Watch, r: bool, name: Seq<char>)
    requires
        call_ensures(Watch::unreachable, (w,), r),
    ensures
        r == old(w).up(),
        !final(w).up(),
        final(w).saved_at() == old(w).saved_at(),
        final(w).nag(name) == old(w).nag(name),
{
}

/// A status is taken down in the state; whether the state is to be saved is decided by what
/// was known before, and the time of the last save stays until it was saved.
pub proof fn statuses_are_taken_down(
    w: &mut Watch,
    state: &mut State,
    status: ChainStatus,
    now: u128,
    clock: u64,
    r: Observation,
)
    requires
        call_ensures(Watch::observe, (w, state, status, now, clock), r),
        clock < time::TIMESTAMP_END,
    ensures
        final(state)@.last_observed matches Some(o) && o.status == status,
        final(state)@.applied == old(state)@.applied,
        final(w).up(),
        final(w).saved_at() == old(w).saved_at(),
        r.reachable == !old(w).up(),
        old(state)@.last_observed is None ==> r.save && r.spec_changed,
        old(state)@.last_observed matches Some(o) ==> r.spec_changed == (o.status.spec_version
            != status.spec_version) && r.save == (r.spec_changed || now - old(w).saved_at()
            >= 30_000_000_000),
{
}

/// A plan that has triggered is applied exactly if its binary is ready. That it is not is said
/// at once, and then every minute, for each plan by itself.
pub proof fn polls_apply_what_is_ready(
    w: &mut Watch,
    due: Due,
    ready: bool,
    now: u128,
    r: Polled,
    other: Seq<char>,
)
    requires
        call_ensures(Watch::poll, (w, due, ready, now), r),
    ensures
        ready ==> r == Polled::Upgrade(due),
        !ready ==> (r matches Polled::NotReady { nag } && (old(w).nag(due.plan.name@) is None ==> nag)
            && (old(w).nag(due.plan.name@) matches Some(said) ==> nag == (now - said
            >= 60_000_000_000))),
        r == (Polled::NotReady { nag: true }) ==> final(w).nag(due.plan.name@) == Some(now),
        other != due.plan.name@ ==> final(w).nag(other) == old(w).nag(other),
        final(w).saved_at() == old(w).saved_at(),
        final(w).up() == old(w).up(),
{
}

/// A poll asks for the status, then for the plans, then for the binary, and ends; a status that
/// could not be read ends it at once, and leaves the state alone.
pub proof fn polls_go_step_by_step(
    stage: PollStage,
    event: PollEvent,
    w: &mut Watch,
    state: &mut State,
    now: u128,
    r: PollStage,
)
    requires
        call_ensures(PollStage::next, (stage, event, w, state, now), r),
        event matches PollEvent::Status(Some(_), clock) ==> clock < time::TIMESTAMP_END,
    ensures
        match (stage, event) {
            (PollStage::Ask, PollEvent::Status(None, _)) => {
                &&& r@ == PollView::Over(None, Remark::Unreachable { was_up: old(w).up() })
                &&& final(state)@ == old(state)@
                &&& !final(w).up()
            },
            (PollStage::Ask, PollEvent::Status(Some(status), _)) => {
                &&& r@ matches PollView::Look(s, _) && s == status
                &&& final(state)@.last_observed matches Some(o) && o.status == status
                &&& final(state)@.applied == old(state)@.applied
                &&& final(w).up()
            },
            (PollStage::Look(status, _), PollEvent::Plans(plans)) => {
                &&& final(state)@ == old(state)@
                &&& r@ is Prepare || r@ == PollView::Over(None, Remark::Nothing)
                &&& r@ matches PollView::Prepare(due) ==> due.status == status
                    && due.plan.triggered(status) && !old(state)@.names().contains(due.plan.name)
            },
            (PollStage::Prepare(due), PollEvent::Ready(ready)) => {
                &&& final(state)@ == old(state)@
                &&& ready ==> r@ == PollView::Over(Some(due@), Remark::Nothing)
                &&& !ready ==> (r@ matches PollView::Over(None, Remark::NotReady { nag }) && nag
                    == old(w).nag_is_due(due.plan.name@, now))
            },
            _ => r@ == stage@ && final(state)@ == old(state)@,
        },
{
    if let (PollStage::Look(status, _), PollEvent::Plans(plans)) = (stage, event) {
        if let PollView::Prepare(due) = r@ {
            let views = crate::plan::plan_views(plans@);
            let i = choose|i: int|
                #![trigger views[i]]
                crate::plan::is_next(views, old(state)@.names().to_set(), status, i) && due.plan
                    == views[i];
            assert(views[i].due(old(state)@.names().to_set(), status));
        }
    }
}

} // verus!
