//! How a run of the supervisor goes: what is applied before anything is launched, when the
//! data is backed up, and how the run ends.

use vstd::prelude::*;

use crate::config::Config;
use crate::download::downloadable;
use crate::layout::LayoutView;
use crate::path;
use crate::plan::{ChainStatus, PlanView};
use crate::state::{ObservedView, StateView};
use crate::supervisor::{
    apply_steps, backed_up, exit_code_of, notice_of, notices_of, prepared, reaction_to, run_fault,
    script_command, ApplyView, BinaryFault, DueView, EventView, NodeEvent, PollEventView, PollView,
    Preparation, PrepareError, Reaction, Remark, RunEvent, StageView, Standing, StopSignal,
    SupervisorView, VersionRun, Watch,
};
use crate::text;
use crate::time::Duration;

verus! {

/// What a run backs up, and whether it restarts, is settled at its start.
pub proof fn settings_of_a_run_stay(run: SupervisorView, event: EventView)
    ensures
        run.next(event).data_dir == run.data_dir,
        run.next(event).restart_after_upgrade == run.restart_after_upgrade,
{
}

/// Whatever way a node ends, on its own, by a signal or for an upgrade, it ran, and what it
/// wrote is not backed up yet.
pub proof fn node_that_ended_has_run(run: SupervisorView, event: EventView)
    requires
        run.stage is Launch,
        event is Exited || event is Stopped || event is Upgrade,
    ensures
        run.next(event).node_ran_since_backup,
        !(run.next(event).stage is Launch),
{
}

/// Whatever way a node ends, and whatever happens then, the next upgrade that is applied is
/// applied with a backup of the data directory, if the run makes backups at all.
pub proof fn data_of_a_node_is_backed_up(
    run: SupervisorView,
    end: EventView,
    events: Seq<EventView>,
)
    requires
        run.stage is Launch,
        end is Exited || end is Stopped || end is Upgrade,
        forall|i: int| 0 <= i < events.len() ==> !((#[trigger] events[i]) is Applied),
    ensures
        run.after(seq![end] + events).node_ran_since_backup,
        run.after(seq![end] + events).data_dir == run.data_dir,
        run.after(seq![end] + events).stage matches StageView::Apply(_, backup) ==> backup
            == run.data_dir,
    decreases events.len(),
{
    let all = seq![end] + events;
    if events.len() == 0 {
        assert(all =~= seq![end]);
        assert(all.drop_last() =~= Seq::<EventView>::empty());
        assert(all.last() == end);
        assert(run.after(Seq::empty()) == run);
    } else {
        let front = events.drop_last();
        assert forall|i: int| 0 <= i < front.len() implies !((#[trigger] front[i]) is Applied) by {
            assert(front[i] == events[i]);
        }
        data_of_a_node_is_backed_up(run, end, front);
        assert(all.drop_last() =~= seq![end] + front);
        assert(all.last() == events[events.len() - 1]);
        assert(!(events[events.len() - 1] is Applied));
    }
}

/// Upgrades that follow on each other without a node in between are applied with a single
/// backup: once one was applied, the next one has none.
pub proof fn untouched_data_is_not_backed_up_again(run: SupervisorView, events: Seq<EventView>)
    requires
        run.stage is Apply,
        forall|i: int|
            0 <= i < events.len() ==> !((#[trigger] events[i]) is Exited) && !(events[i] is Stopped)
                && !(events[i] is Upgrade),
    ensures
        !run.after(seq![EventView::Applied] + events).node_ran_since_backup,
        run.after(seq![EventView::Applied] + events).stage matches StageView::Apply(_, backup)
            ==> backup is None,
    decreases events.len(),
{
    let all = seq![EventView::Applied] + events;
    if events.len() == 0 {
        assert(all =~= seq![EventView::Applied]);
        assert(all.drop_last() =~= Seq::<EventView>::empty());
        assert(all.last() == EventView::Applied);
        assert(run.after(Seq::empty()) == run);
    } else {
        let front = events.drop_last();
        assert forall|i: int| 0 <= i < front.len() implies !((#[trigger] front[i]) is Exited)
            && !(front[i] is Stopped) && !(front[i] is Upgrade) by {
            assert(front[i] == events[i]);
        }
        untouched_data_is_not_backed_up_again(run, front);
        assert(all.drop_last() =~= seq![EventView::Applied] + front);
        assert(all.last() == events[events.len() - 1]);
        assert(!(events[events.len() - 1] is Exited));
    }
}

/// The node is launched only where no upgrade had triggered, or where the binary of the one
/// that had is not ready.
pub proof fn launches_only_without_a_ready_upgrade(run: SupervisorView, event: EventView)
    requires
        run.next(event).stage is Launch,
        !(run.stage is Launch),
    ensures
        (run.stage is Load && event == EventView::Found(None)) || (run.stage is Prepare && event
            == EventView::Ready(false)),
{
}

/// Before a launch, what had triggered is made ready and applied; where nothing had, or its
/// binary is not ready, the node is launched.
pub proof fn triggered_upgrade_comes_before_the_launch(run: SupervisorView, due: DueView)
    requires
        run.stage is Load,
    ensures
        run.next(EventView::Found(None)).stage == StageView::Launch,
        run.next(EventView::Found(Some(due))).stage == StageView::Prepare(due),
        run.next(EventView::Found(Some(due))).next(EventView::Ready(true)).stage
            matches StageView::Apply(applied, backup) && applied == due && (backup
            == run.data_dir || !run.node_ran_since_backup && backup is None),
        run.next(EventView::Found(Some(due))).next(EventView::Ready(false)).stage
            == StageView::Launch,
{
}

/// A node that was stopped for an upgrade gives way to that upgrade, with a backup.
pub proof fn stopped_node_gives_way(run: SupervisorView, due: DueView)
    requires
        run.stage is Launch,
    ensures
        run.next(EventView::Upgrade(due)).stage == StageView::Apply(due, run.data_dir),
{
}

/// A node that exits on its own, with no upgrade triggered, takes the supervisor with it, and
/// gives it its exit code. A supervisor that is not to restart the node does not even look for
/// upgrades.
pub proof fn node_that_exits_ends_the_run(run: SupervisorView, code: i32)
    requires
        run.stage is Launch,
    ensures
        run.next(EventView::Exited(code)).next(EventView::Found(None)).stage == StageView::Exit(
            code,
        ),
        !run.restart_after_upgrade ==> run.next(EventView::Exited(code)).stage == StageView::Exit(
            code,
        ),
{
}

/// A node that crashes once an upgrade has triggered is upgraded and not given up: where the
/// binary is ready, the upgrade is applied, with a backup, before anything is launched; where
/// it is not, the supervisor exits with the node's code.
pub proof fn crash_after_a_trigger_is_answered_by_the_upgrade(
    run: SupervisorView,
    code: i32,
    seen: DueView,
    due: DueView,
)
    requires
        run.stage is Launch,
        run.restart_after_upgrade,
    ensures
        ({
            let crashed = run.next(EventView::Exited(code)).next(EventView::Found(Some(seen)));
            let again = crashed.next(EventView::Ready(true));
            &&& crashed.stage == StageView::PrepareAgain(seen, code)
            &&& crashed.next(EventView::Ready(false)).stage == StageView::Exit(code)
            &&& again.stage == StageView::Load
            &&& again.next(EventView::Found(Some(due))).next(EventView::Ready(true)).stage
                == StageView::Apply(due, run.data_dir)
        }),
{
}

/// A stage takes only the news that it waits for; any other changes nothing.
pub proof fn only_what_was_asked_for_counts(run: SupervisorView, event: EventView)
    requires
        match run.stage {
            StageView::Load => !(event is Found),
            StageView::Prepare(_) => !(event is Ready),
            StageView::Apply(_, _) => !(event is Applied),
            StageView::Launch => !(event is Exited) && !(event is Stopped) && !(event is Upgrade),
            StageView::Recheck(_) => !(event is Found),
            StageView::PrepareAgain(_, _) => !(event is Ready),
            StageView::Exit(_) => true,
        },
    ensures
        run.next(event) == run,
{
}

/// While the node runs, its own end is passed on with its code, a poll that finds nothing
/// changes nothing, and an upgrade that a poll finds stops the node and is applied next.
pub proof fn news_of_the_node_is_passed_on(
    run: SupervisorView,
    code: i32,
    other: i32,
    due: crate::supervisor::Due,
)
    requires
        run.stage is Launch,
    ensures
        reaction_to(NodeEvent::Polled(None)) == Reaction::Watch,
        Reaction::Watch.outcome(other, false) is None,
        Reaction::Watch.outcome(other, true) is None,
        reaction_to(NodeEvent::Exited(code)).outcome(other, false) == Some(RunEvent::Exited(code)),
        reaction_to(NodeEvent::Polled(Some(due))) == Reaction::StopFor(due, StopSignal::Interrupt),
        reaction_to(NodeEvent::Polled(Some(due))).outcome(other, false) matches Some(event)
            && run.next(event@).stage == StageView::Apply(due@, run.data_dir),
{
}

/// The supervisor exits with the code of the node, whatever signals were about; a node that a
/// signal killed counts for 128 and that signal.
pub proof fn codes_are_those_of_the_shell(code: i32, signal: Option<i32>, number: i32)
    ensures
        exit_code_of(Some(code), signal) == code,
        exit_code_of(None, Some(number)) == 128 + number,
{
}

/// With backups switched off nothing is backed up; else it is the directory that was set, as
/// it stands, whatever the node's arguments are.
pub proof fn backups_can_be_switched_off(
    cfg: Config,
    args: Seq<Seq<char>>,
    env: Option<Seq<char>>,
)
    ensures
        cfg.unsafe_skip_backup ==> backed_up(cfg, args, env) is None,
        !cfg.unsafe_skip_backup && cfg.data_dir is Some ==> backed_up(cfg, args, env) == Some(
            cfg.data_dir->0@,
        ),
{
}

/// A run that makes backups backs up before its very first upgrade.
pub proof fn first_upgrade_is_backed_up(
    data_dir: Option<Seq<char>>,
    restart: bool,
    due: DueView,
)
    ensures
        ({
            let run = SupervisorView::start(data_dir, restart);
            &&& run.stage is Load
            &&& run.data_dir == data_dir
            &&& run.restart_after_upgrade == restart
            &&& run.next(EventView::Found(Some(due))).next(EventView::Ready(true)).stage
                == StageView::Apply(due, data_dir)
        }),
{
}

/// What was last seen on chain is saved when the runtime changed, or was never seen, and else
/// once half a minute has passed, and not before.
pub proof fn observations_are_saved_in_time(
    watch: Watch,
    state: StateView,
    status: ChainStatus,
    seen: ObservedView,
    now: u128,
)
    ensures
        state.last_observed is None ==> watch.observation(state, status, now).save,
        state.last_observed == Some(seen) && seen.status.spec_version != status.spec_version
            ==> watch.observation(state, status, now).save && watch.observation(
            state,
            status,
            now,
        ).spec_changed,
        state.last_observed == Some(seen) && seen.status.spec_version == status.spec_version
            ==> !watch.observation(state, status, now).spec_changed && watch.observation(
            state,
            status,
            now,
        ).save == (now - watch.saved_at() >= 30_000_000_000),
        watch.observation(state, status, now).reachable == !watch.up(),
{
}

/// That a binary is not ready is said at once, and then again every minute.
pub proof fn nags_come_every_minute(watch: Watch, name: Seq<char>, said: u128, now: u128)
    ensures
        watch.nag(name) is None ==> watch.nag_is_due(name, now),
        watch.nag(name) == Some(said) ==> watch.nag_is_due(name, now) == (now - said
            >= 60_000_000_000),
{
}

/// A poll that read a status looks for a plan at that very status; one that could not read it
/// finds nothing.
pub proof fn polls_look_at_what_they_read(
    status: ChainStatus,
    clock: u64,
    watch: Watch,
    state: StateView,
    now: u128,
    after: PollView,
)
    ensures
        PollView::Ask.leads_to(PollEventView::Status(None, clock), watch, state, now, after)
            ==> after == PollView::Over(None, Remark::Unreachable { was_up: watch.up() }),
        PollView::Ask.leads_to(PollEventView::Status(Some(status), clock), watch, state, now, after)
            ==> (after matches PollView::Look(s, seen) && s == status && seen == watch.observation(
            state,
            status,
            now,
        )),
{
}

/// A binary that is there is used and never downloaded again. One that is not is downloaded
/// exactly if that is allowed and the plan says where from, to the place of the plan's binary,
/// and with a checksum wherever the configuration insists on one.
pub proof fn binaries_are_downloaded_only_where_allowed(
    cfg: Config,
    layout: LayoutView,
    plan: PlanView,
    allow: bool,
    there: bool,
    r: Result<Preparation, PrepareError>,
)
    requires
        prepared(cfg, layout, plan, allow, there, r),
    ensures
        r is Ok <==> there || allow && plan.info is Some,
        there ==> r->Ok_0 is Check,
        r matches Ok(Preparation::Check(bin)) ==> there && bin@ == layout.upgrade_bin(plan.name),
        r matches Ok(Preparation::Download { bin, must_have_checksum }) ==> !there && allow
            && plan.info is Some && bin@ == layout.upgrade_bin(plan.name) && must_have_checksum
            == cfg.download_must_have_checksum,
        r matches Err(PrepareError::NoInfo(bin)) ==> plan.info is None && bin@
            == layout.upgrade_bin(plan.name),
        r matches Err(PrepareError::DownloadDisabled(bin)) ==> !allow && plan.info is Some && bin@
            == layout.upgrade_bin(plan.name),
{
}

/// A binary passes only if `--version` ran and succeeded.
pub proof fn only_a_binary_that_runs_passes(run: VersionRun)
    ensures
        run_fault(run) is None <==> run == (VersionRun::Exited { success: true }),
        run == VersionRun::TimedOut ==> run_fault(run) == Some(BinaryFault::TimedOut),
        run == VersionRun::NotStarted ==> run_fault(run) == Some(BinaryFault::NotStarted),
{
}

/// The pre-upgrade script is given the upgrade's name and the height that was seen, and finds
/// both, the runtime version that was seen, and the new binary, in its environment.
pub proof fn script_is_told_of_the_upgrade(
    cfg: Config,
    layout: LayoutView,
    script: Seq<char>,
    due: DueView,
)
    ensures
        ({
            let c = script_command(cfg, layout, script, due);
            &&& c.program == path::joined(layout.root, script)
            &&& c.args.len() == 2
            &&& c.args[0] == due.plan.name
            &&& text::natural(c.args[1]) == Some(due.status.height as nat)
            &&& c.env.contains(("DAEMON_HOME"@, cfg.home@))
            &&& c.env.contains(("DAEMON_NAME"@, cfg.name@))
            &&& c.env.contains(("MIDNIGHT_NODE_UPDATER_UPGRADE_NAME"@, due.plan.name))
            &&& c.env.contains(("MIDNIGHT_NODE_UPDATER_UPGRADE_HEIGHT"@, c.args[1]))
            &&& c.env.contains(
                (
                    "MIDNIGHT_NODE_UPDATER_UPGRADE_SPEC_VERSION"@,
                    text::decimal(due.status.spec_version as nat),
                ),
            )
            &&& c.env.contains(
                ("MIDNIGHT_NODE_UPDATER_UPGRADE_BIN"@, layout.upgrade_bin(due.plan.name)),
            )
        }),
{
    let c = script_command(cfg, layout, script, due);
    text::decimal_is_read_back(due.status.height as nat);
    assert(c.env[0] == ("DAEMON_HOME"@, cfg.home@));
    assert(c.env[1] == ("DAEMON_NAME"@, cfg.name@));
    assert(c.env[2] == ("MIDNIGHT_NODE_UPDATER_UPGRADE_NAME"@, due.plan.name));
    assert(c.env[3] == ("MIDNIGHT_NODE_UPDATER_UPGRADE_HEIGHT"@, c.args[1]));
    assert(c.env[4] == (
        "MIDNIGHT_NODE_UPDATER_UPGRADE_SPEC_VERSION"@,
        text::decimal(due.status.spec_version as nat),
    ));
    assert(c.env[5] == (
        "MIDNIGHT_NODE_UPDATER_UPGRADE_BIN"@,
        layout.upgrade_bin(due.plan.name),
    ));
}

/// The place of a step among those of an upgrade: a pause, the backup, the script, the switch,
/// the record, and last the saving of the state.
pub open spec fn step_rank(step: ApplyView) -> int {
    match step {
        ApplyView::Wait(_) => 0,
        ApplyView::Backup { .. } => 1,
        ApplyView::Script(_) => 2,
        ApplyView::Switch(_) => 3,
        ApplyView::Record(_, _) => 4,
        ApplyView::Save(_) => 5,
    }
}

/// An upgrade is applied in one order, no step comes twice, and every step is about that
/// upgrade: a pause exactly if one is set, a backup of the directory that is to be backed up,
/// to the backup directory that is set, or else to `backups` in the home, the script exactly
/// if there is one, and then the switch to the upgrade, its record, and the state file.
pub proof fn upgrade_goes_step_by_step(
    cfg: Config,
    layout: LayoutView,
    due: DueView,
    backup_from: Option<Seq<char>>,
)
    ensures
        ({
            let steps = apply_steps(cfg, layout, due, backup_from);
            &&& forall|i: int, j: int|
                #![trigger steps[i], steps[j]]
                0 <= i < j < steps.len() ==> step_rank(steps[i]) < step_rank(steps[j])
            &&& forall|d: Duration| #[trigger]
                steps.contains(ApplyView::Wait(d)) <==> d == cfg.restart_delay && !(d.secs == 0
                    && d.nanos == 0)
            &&& forall|data_dir: Seq<char>, root: Seq<char>| #[trigger]
                steps.contains(ApplyView::Backup { data_dir, root }) <==> backup_from == Some(
                    data_dir,
                ) && root == (match cfg.backup_dir {
                    Some(dir) => dir@,
                    None => path::joined(cfg.home@, "backups"@),
                })
            &&& forall|c: crate::supervisor::CommandView| #[trigger]
                steps.contains(ApplyView::Script(c)) <==> cfg.preupgrade_script is Some && c
                    == script_command(cfg, layout, cfg.preupgrade_script->0@, due)
            &&& forall|name: Seq<char>| #[trigger]
                steps.contains(ApplyView::Switch(name)) <==> name == due.plan.name
            &&& forall|name: Seq<char>, status: ChainStatus| #[trigger]
                steps.contains(ApplyView::Record(name, status)) <==> name == due.plan.name && status
                    == due.status
            &&& forall|file: Seq<char>| #[trigger]
                steps.contains(ApplyView::Save(file)) <==> file == layout.state_file()
        }),
{
    let steps = apply_steps(cfg, layout, due, backup_from);
    let waits = !(cfg.restart_delay.secs == 0 && cfg.restart_delay.nanos == 0);
    let a: int = if waits {
        1
    } else {
        0
    };
    let b: int = if backup_from is Some {
        a + 1
    } else {
        a
    };
    let n: int = if cfg.preupgrade_script is Some {
        b + 1
    } else {
        b
    };
    assert(steps.len() == n + 3);
    if waits {
        assert(steps[0] == ApplyView::Wait(cfg.restart_delay));
    }
    if let Some(data_dir) = backup_from {
        assert(steps[a] is Backup);
        assert(steps[a]->data_dir == data_dir);
    }
    if cfg.preupgrade_script is Some {
        assert(steps[b] == ApplyView::Script(
            script_command(cfg, layout, cfg.preupgrade_script->0@, due),
        ));
    }
    assert(steps[n] == ApplyView::Switch(due.plan.name));
    assert(steps[n + 1] == ApplyView::Record(due.plan.name, due.status));
    assert(steps[n + 2] == ApplyView::Save(layout.state_file()));
    assert forall|i: int| #![trigger steps[i]] 0 <= i < steps.len() implies {
        ||| waits && i == 0
        ||| backup_from is Some && i == a
        ||| cfg.preupgrade_script is Some && i == b
        ||| n <= i < n + 3
    } by {}
}

/// When the node is launched, every plan that was not applied is spoken of, and no other.
pub proof fn pending_plans_are_spoken_of(
    plans: Seq<PlanView>,
    layout: LayoutView,
    applied: Set<Seq<char>>,
    allow: bool,
    there: Seq<bool>,
    platform: Seq<char>,
    i: int,
)
    requires
        there.len() == plans.len(),
        0 <= i < plans.len(),
    ensures
        !applied.contains(plans[i].name) ==> notices_of(
            plans,
            layout,
            applied,
            allow,
            there,
            platform,
        ).contains(notice_of(plans[i], layout, allow, there[i], platform)),
        applied.contains(plans[i].name) ==> forall|k: int|
            0 <= k < notices_of(plans, layout, applied, allow, there, platform).len()
                ==> (#[trigger] notices_of(plans, layout, applied, allow, there, platform)[k]).name
                != plans[i].name,
{
    if applied.contains(plans[i].name) {
        only_pending(plans, layout, applied, allow, there, platform);
    } else {
        spoken_of(plans, layout, applied, allow, there, platform, i);
    }
}

proof fn spoken_of(
    plans: Seq<PlanView>,
    layout: LayoutView,
    applied: Set<Seq<char>>,
    allow: bool,
    there: Seq<bool>,
    platform: Seq<char>,
    i: int,
)
    requires
        there.len() >= plans.len(),
        0 <= i < plans.len(),
        !applied.contains(plans[i].name),
    ensures
        notices_of(plans, layout, applied, allow, there, platform).contains(
            notice_of(plans[i], layout, allow, there[i], platform),
        ),
    decreases plans.len(),
{
    let all = notices_of(plans, layout, applied, allow, there, platform);
    let notice = notice_of(plans[i], layout, allow, there[i], platform);
    let n = plans.len() - 1;
    let front = plans.drop_last();
    let before = notices_of(front, layout, applied, allow, there, platform);
    if i < n {
        spoken_of(front, layout, applied, allow, there, platform, i);
        assert(front[i] == plans[i]);
        let k = choose|k: int| 0 <= k < before.len() && before[k] == notice;
        assert(all[k] == notice);
    } else {
        assert(all[all.len() - 1] == notice);
    }
}

proof fn only_pending(
    plans: Seq<PlanView>,
    layout: LayoutView,
    applied: Set<Seq<char>>,
    allow: bool,
    there: Seq<bool>,
    platform: Seq<char>,
)
    ensures
        forall|k: int|
            0 <= k < notices_of(plans, layout, applied, allow, there, platform).len()
                ==> !applied.contains(
                (#[trigger] notices_of(plans, layout, applied, allow, there, platform)[k]).name,
            ),
    decreases plans.len(),
{
    if plans.len() > 0 {
        let front = plans.drop_last();
        let before = notices_of(front, layout, applied, allow, there, platform);
        let all = notices_of(plans, layout, applied, allow, there, platform);
        only_pending(front, layout, applied, allow, there, platform);
        assert forall|k: int| 0 <= k < all.len() implies !applied.contains(
            (#[trigger] all[k]).name,
        ) by {
            if k < before.len() {
                assert(all[k] == before[k]);
            }
        }
    }
}

/// What is said of a pending upgrade is that its binary is there, exactly if it is, or that it
/// will be downloaded, only where that is allowed and the plan says where from.
pub proof fn notices_say_how_an_upgrade_stands(
    plan: PlanView,
    layout: LayoutView,
    allow: bool,
    there: bool,
    platform: Seq<char>,
)
    ensures
        ({
            let notice = notice_of(plan, layout, allow, there, platform);
            &&& notice.name == plan.name
            &&& notice.trigger == plan.trigger_text()
            &&& notice.bin == layout.upgrade_bin(plan.name)
            &&& (notice.standing == Standing::Installed) == there
            &&& (notice.standing == Standing::WillDownload) == (!there && allow && downloadable(
                plan.info,
                platform,
            ))
        }),
{
}

} // verus!
