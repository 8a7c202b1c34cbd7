//! What comes back from the functions of this crate, in terms of what goes in.

use vstd::prelude::*;

use crate::backup::{backup_data_dir, copy_dir, BackupError, CopyStep, Entry, EntryKind};
use crate::commands::{
    add_upgrade, init, plan_upgrade, prepare_pending, prepare_upgrade, readiness, status,
    AddError, AddUpgrade, Addition, InitSeen, InitStep, NotReady, Report, Seen,
};
use crate::config::{
    base_path_from_args, boolean, Config, ConfigError, Finality, LoadError, Scalar, Setting,
    Settings,
};
use crate::download::{
    find_file, has_download_info, packing, platform, select_binary, unpack, Checksum, Downloader,
    Fetch, FetchError, Hasher, InfoError, Instructions, Mismatch, Node, Packing, Source,
};
use crate::json::{Json, JsonView};
use crate::laws::config::says_nothing_of_base_path;
use crate::laws::plan::lower_case_of;
use crate::layout::{
    install_executable, judge_plan, Install, InstallError, Layout, MissingBinary,
    MissingDirectory, PlanEntry, PlanPlace, Switch, Verdict,
};
use crate::path;
use crate::plan::{
    contains_name, next_triggered, normalize_name, plan_views, validate_name, ChainStatus,
    PlanError, UpgradePlan,
};
use crate::rpc::{reply, to_http, CallError, RpcClient, RpcError};
use crate::state::State;
use crate::supervisor::{
    after_grace, already_triggered, apply_upgrade, check_executable, check_runs, due_plan,
    exit_code, monitor, prepare_triggered, run, AfterGrace, ApplyStep, BinaryFault, Due,
    NodeEvent, Preparation, PrepareError, Reaction, RunEvent, RunStage, Start, StartError,
    StopSignal, Supervisor, VersionRun,
};
use crate::text;
use crate::time::Duration;

verus! {

/// The plan has triggered at this status, and is not among the applied ones.
pub open spec fn waiting(plan: UpgradePlan, applied: Seq<Seq<char>>, status: ChainStatus) -> bool {
    &&& !applied.contains(plan.name@)
    &&& (plan.height is Some && status.height >= plan.height->0) || (plan.spec_version is Some
        && status.spec_version >= plan.spec_version->0)
}

/// Plan `a` waits for no higher block than `b`, and where both wait for the same block, or for
/// none, supports no newer runtime; a plan without a block or a runtime comes behind those
/// that have one.
pub open spec fn no_newer(a: UpgradePlan, b: UpgradePlan) -> bool {
    &&& a.height is Some && b.height is Some ==> a.height->0 <= b.height->0
    &&& a.height is None && b.height is Some ==> b.height->0 == u64::MAX
    &&& a.height == b.height && a.spec_version is Some && b.spec_version is Some
        ==> a.spec_version->0 <= b.spec_version->0
    &&& a.height == b.height && a.spec_version is None && b.spec_version is Some
        ==> b.spec_version->0 == u32::MAX
    &&& a.height == b.height && a.spec_version == b.spec_version ==> text::at_most(
        a.name@,
        b.name@,
    )
}

/// The plan that is chosen is one of those that are waiting, and no other that is waiting is
/// older; nothing is chosen only where none is waiting.
pub proof fn oldest_waiting_plan_is_chosen(
    plans: &[UpgradePlan],
    applied: &Vec<String>,
    status: &ChainStatus,
    r: Option<&UpgradePlan>,
    j: int,
)
    requires
        call_ensures(next_triggered, (plans, applied, status), r),
        0 <= j < plans@.len(),
        waiting(plans@[j], text::texts(applied@), *status),
    ensures
        r matches Some(p) && plans@.contains(*p) && waiting(*p, text::texts(applied@), *status)
            && no_newer(*p, plans@[j]),
{
    assert(plan_views(plans@)[j] == plans@[j]@);
    assert(plan_views(plans@)[j].due(crate::plan::name_set(applied@), *status));
    let p = *r->0;
    let i = choose|i: int|
        #![trigger plans@[i]]
        crate::plan::is_next(plan_views(plans@), crate::plan::name_set(applied@), *status, i) && p
            == plans@[i];
    assert(plan_views(plans@)[i] == p@);
    assert(p@.no_later_than(plans@[j]@));
}

/// At a chain status the oldest waiting plan is due, with that status.
pub proof fn oldest_waiting_plan_is_due(
    plans: &Vec<UpgradePlan>,
    state: &State,
    status: ChainStatus,
    r: Option<Due>,
    j: int,
)
    requires
        call_ensures(due_plan, (plans, state, status), r),
        0 <= j < plans@.len(),
        waiting(plans@[j], state@.names(), status),
    ensures
        r matches Some(d) && d.status == status && exists|i: int|
            #![trigger plans@[i]]
            0 <= i < plans@.len() && plans@[i]@ == d.plan@ && waiting(
                plans@[i],
                state@.names(),
                status,
            ) && no_newer(plans@[i], plans@[j]),
{
    due_is_oldest(plans@, state@.names(), status, crate::supervisor::due_view(r), j);
}

proof fn due_is_oldest(
    plans: Seq<UpgradePlan>,
    applied: Seq<Seq<char>>,
    status: ChainStatus,
    due: Option<crate::supervisor::DueView>,
    j: int,
)
    requires
        crate::supervisor::is_due_next(plan_views(plans), applied.to_set(), status, due),
        0 <= j < plans.len(),
        waiting(plans[j], applied, status),
    ensures
        due matches Some(d) && d.status == status && exists|i: int|
            #![trigger plans[i]]
            0 <= i < plans.len() && plans[i]@ == d.plan && waiting(plans[i], applied, status)
                && no_newer(plans[i], plans[j]),
{
    assert(plan_views(plans)[j] == plans[j]@);
    assert(plan_views(plans)[j].due(applied.to_set(), status));
    let d = due->0;
    let i = choose|i: int|
        #![trigger plan_views(plans)[i]]
        crate::plan::is_next(plan_views(plans), applied.to_set(), status, i) && d.plan
            == plan_views(plans)[i];
    assert(plan_views(plans)[i] == plans[i]@);
    assert(plans[i]@.no_later_than(plans[j]@));
    assert(waiting(plans[i], applied, status));
}

/// Where a chain status was saved, what had triggered at it is found again after a restart,
/// the oldest plan first; where none was, nothing is.
pub proof fn triggered_plan_is_found_after_a_restart(
    plans: &Vec<UpgradePlan>,
    state: &State,
    r: Option<Due>,
    j: int,
)
    requires
        call_ensures(already_triggered, (plans, state), r),
    ensures
        state@.last_observed is None ==> r is None,
        state@.last_observed matches Some(o) ==> (0 <= j < plans@.len() && waiting(
            plans@[j],
            state@.names(),
            o.status,
        ) ==> (r matches Some(d) && d.status == o.status && exists|i: int|
            #![trigger plans@[i]]
            0 <= i < plans@.len() && plans@[i]@ == d.plan@ && waiting(
                plans@[i],
                state@.names(),
                o.status,
            ) && no_newer(plans@[i], plans@[j]))),
{
    if let Some(o) = state@.last_observed {
        if 0 <= j < plans@.len() && waiting(plans@[j], state@.names(), o.status) {
            due_is_oldest(plans@, state@.names(), o.status, crate::supervisor::due_view(r), j);
        }
    }
}

/// A plan has triggered exactly if the chain has reached its block or its runtime.
pub proof fn plans_trigger_when_reached(plan: &UpgradePlan, status: &ChainStatus, r: bool)
    requires
        call_ensures(UpgradePlan::is_triggered, (plan, status), r),
    ensures
        plan.height matches Some(h) && status.height >= h ==> r,
        plan.spec_version matches Some(v) && status.spec_version >= v ==> r,
        r ==> (plan.height is Some && status.height >= plan.height->0) || (plan.spec_version is Some
            && status.spec_version >= plan.spec_version->0),
{
}

/// A name is found exactly if it is there.
pub proof fn names_are_found(names: &Vec<String>, name: &str, r: bool)
    requires
        call_ensures(contains_name, (names, name), r),
    ensures
        r <==> exists|i: int| #![trigger names@[i]] 0 <= i < names@.len() && names@[i]@ == name@,
{
    if r {
        let i = choose|i: int|
            0 <= i < text::texts(names@).len() && text::texts(names@)[i] == name@;
        assert(names@[i]@ == name@);
    }
    if exists|i: int| #![trigger names@[i]] 0 <= i < names@.len() && names@[i]@ == name@ {
        let i = choose|i: int|
            #![trigger names@[i]]
            0 <= i < names@.len() && names@[i]@ == name@;
        assert(text::texts(names@)[i] == name@);
    }
}

/// A plan passes exactly if it has a fit name and a trigger, and a name passes exactly if it is
/// registered as it stands.
pub proof fn plans_are_checked(
    plan: &UpgradePlan,
    name: &str,
    p: Result<(), PlanError>,
    n: Result<(), PlanError>,
    m: Result<String, PlanError>,
)
    requires
        call_ensures(UpgradePlan::validate, (plan,), p),
        call_ensures(validate_name, (name,), n),
        call_ensures(normalize_name, (name,), m),
    ensures
        n is Ok <==> crate::plan::valid_name(name@),
        n is Ok ==> m is Ok && m->Ok_0@ == name@,
        m matches Ok(t) ==> crate::plan::valid_name(t@),
        plan.name@ == name@ ==> (p is Ok <==> n is Ok && (plan.height is Some
            || plan.spec_version is Some)),
{
    if crate::plan::valid_name(name@) {
        let none = Seq::<char>::empty();
        assert forall|i: int| #![trigger name@[i]] 0 <= i < name@.len() implies !('A' <= name@[i]
            && name@[i] <= 'Z') by {
            assert(crate::plan::name_char(name@[i]));
        }
        assert(lower_case_of(name@, name@));
        crate::laws::plan::names_are_taken_without_blanks_and_case(none, name@, none, name@);
        assert(none + name@ + none =~= name@);
    }
}

/// A run goes as its events say: whatever way a node ends, the next upgrade is backed up; a
/// node that exits with nothing triggered ends the run with its code.
pub proof fn runs_go_as_their_events_say(
    s: Supervisor,
    event: RunEvent,
    r: Supervisor,
    due: Due,
    t: Supervisor,
)
    requires
        call_ensures(Supervisor::next, (s, event), r),
        call_ensures(Supervisor::next, (r, RunEvent::Found(None)), t),
        s@.stage is Launch,
    ensures
        event is Exited || event is Stopped || event is Upgrade ==> r@.node_ran_since_backup
            && r@.data_dir == s@.data_dir,
        event matches RunEvent::Upgrade(d) ==> r@.stage == crate::supervisor::StageView::Apply(
            d@,
            s@.data_dir,
        ),
        event matches RunEvent::Stopped(code) ==> r@.stage == crate::supervisor::StageView::Exit(
            code,
        ),
        event matches RunEvent::Exited(code) ==> t@.stage == crate::supervisor::StageView::Exit(
            code,
        ),
        event matches RunEvent::Exited(code) ==> (s@.restart_after_upgrade ==> r@.stage
            == crate::supervisor::StageView::Recheck(code)),
        event is Found || event is Ready || event is Applied ==> r@ == s@,
{
}

/// The stages of a run follow on each other as they are told: what had triggered is prepared,
/// what is ready is applied, and after that the run goes on or ends.
pub proof fn stages_follow_on_each_other(s: Supervisor, event: RunEvent, r: Supervisor)
    requires
        call_ensures(Supervisor::next, (s, event), r),
    ensures
        r@.data_dir == s@.data_dir,
        r@.restart_after_upgrade == s@.restart_after_upgrade,
        match (s@.stage, event) {
            (crate::supervisor::StageView::Load, RunEvent::Found(Some(d))) => r@.stage
                == crate::supervisor::StageView::Prepare(d@),
            (crate::supervisor::StageView::Load, RunEvent::Found(None)) => r@.stage is Launch,
            (crate::supervisor::StageView::Prepare(d), RunEvent::Ready(true)) => r@.stage
                matches crate::supervisor::StageView::Apply(a, backup) && a == d && backup == (
            if s@.node_ran_since_backup {
                s@.data_dir
            } else {
                None
            }),
            (crate::supervisor::StageView::Prepare(_), RunEvent::Ready(false)) => r@.stage is Launch,
            (crate::supervisor::StageView::Apply(_, _), RunEvent::Applied) => {
                &&& !r@.node_ran_since_backup
                &&& s@.restart_after_upgrade ==> r@.stage is Load
                &&& !s@.restart_after_upgrade ==> r@.stage == crate::supervisor::StageView::Exit(0)
            },
            (crate::supervisor::StageView::PrepareAgain(_, _), RunEvent::Ready(true)) => r@.stage
                is Load,
            (crate::supervisor::StageView::PrepareAgain(_, code), RunEvent::Ready(false)) => r@.stage
                == crate::supervisor::StageView::Exit(code),
            (crate::supervisor::StageView::Recheck(code), RunEvent::Found(Some(d))) => r@.stage
                == crate::supervisor::StageView::PrepareAgain(d@, code),
            (crate::supervisor::StageView::Exit(_), _) => r@ == s@,
            _ => true,
        },
{
}

/// What the supervisor is about is what it says it is about.
pub proof fn stage_is_told(s: &Supervisor, r: &RunStage)
    requires
        call_ensures(Supervisor::stage, (s,), r),
    ensures
        r@ == s@.stage,
{
}

/// The supervisor starts exactly if there is a binary to launch, the directory to back up is
/// known or backups are off, and the node's URL can be read. It then looks for upgrades first,
/// and backs up the directory that is known.
pub proof fn runs_start_with_what_they_need(
    cfg: &Config,
    args: &[String],
    env: Option<String>,
    link: Option<&str>,
    is_file: bool,
    r: Result<Start, StartError>,
    dir: Option<String>,
)
    requires
        call_ensures(run, (cfg, args, env, link, is_file), r),
        call_ensures(Config::resolve_data_dir, (cfg, args, env), dir),
    ensures
        r matches Err(StartError::NoBinary(_)) <==> !is_file,
        r matches Err(StartError::NoDataDir) <==> is_file && !cfg.unsafe_skip_backup && dir is None,
        r matches Ok(s) ==> s.supervisor@.stage is Load && s.supervisor@.restart_after_upgrade
            == cfg.restart_after_upgrade && s.supervisor@.node_ran_since_backup,
        r matches Ok(s) ==> s.rpc.patience() == (Duration { secs: 5, nanos: 0 }),
        r matches Ok(s) ==> (cfg.unsafe_skip_backup ==> s.supervisor@.data_dir is None),
        r matches Ok(s) ==> (!cfg.unsafe_skip_backup ==> dir is Some && s.supervisor@.data_dir
            == Some(dir->0@)),
{
}

/// The node's data directory is the one that is set, as it stands; else the arguments count,
/// and else the environment.
pub proof fn data_dir_is_resolved(
    cfg: &Config,
    args: &[String],
    env: Option<String>,
    r: Option<String>,
    b: Option<String>,
)
    requires
        call_ensures(Config::resolve_data_dir, (cfg, args, env), r),
        call_ensures(base_path_from_args, (args,), b),
    ensures
        cfg.data_dir matches Some(dir) ==> (r matches Some(t) && t@ == dir@),
        cfg.data_dir is None && b is Some ==> (r matches Some(t) && t@ == b->0@),
        cfg.data_dir is None && b is None && env is Some && env->0@.len() > 0 ==> (r matches Some(t)
            && t@ == env->0@),
        cfg.data_dir is None && b is None && (env is None || env->0@.len() == 0) ==> r is None,
{
}

/// The base path is what follows the first argument that speaks of it.
pub proof fn base_path_follows_its_argument(args: &[String], r: Option<String>, k: int)
    requires
        call_ensures(base_path_from_args, (args,), r),
        0 <= k < args@.len(),
        forall|i: int| 0 <= i < k ==> says_nothing_of_base_path((#[trigger] args@[i])@),
    ensures
        (args@[k]@ == "--base-path"@ || args@[k]@ == "-d"@) && k + 1 < args@.len() ==> (r
            matches Some(t) && t@ == args@[k + 1]@),
        "--base-path="@.is_prefix_of(args@[k]@) ==> (r matches Some(t) && args@[k]@
            == "--base-path="@ + t@),
        args@[k]@ == "--"@ ==> r is None,
{
    let all = text::texts(args@);
    let front = all.take(k);
    assert forall|i: int| 0 <= i < front.len() implies says_nothing_of_base_path(
        #[trigger] front[i],
    ) by {
        assert(front[i] == args@[i]@);
    }
    if k + 1 < all.len() {
        let tail = all.skip(k + 2);
        crate::laws::config::base_path_is_found_anywhere(front, all[k + 1], tail);
        if args@[k]@ == "--base-path"@ {
            assert(all =~= front + (seq!["--base-path"@, all[k + 1]] + tail));
        } else if args@[k]@ == "-d"@ {
            assert(all =~= front + (seq!["-d"@, all[k + 1]] + tail));
        }
    }
    let rest = all.skip(k + 1);
    if "--base-path="@.is_prefix_of(args@[k]@) {
        let value = args@[k]@.subrange("--base-path="@.len() as int, args@[k]@.len() as int);
        assert(args@[k]@ =~= "--base-path="@ + value);
        crate::laws::config::base_path_is_found_anywhere(front, value, rest);
        assert(all =~= front + (seq!["--base-path="@ + value] + rest));
    }
    if args@[k]@ == "--"@ {
        crate::laws::config::base_path_is_not_made_up(front, rest);
        assert(all =~= front + (seq!["--"@] + rest));
    }
}

/// A truth value that can be read is the one that is written; one that cannot be is blamed on
/// its own setting.
pub proof fn truth_values_are_read(
    value: &Option<String>,
    setting: Setting,
    default: bool,
    r: Result<bool, ConfigError>,
    word: Seq<char>,
)
    requires
        call_ensures(boolean, (value, setting, default), r),
    ensures
        *value is None ==> r == Ok::<bool, ConfigError>(default),
        *value matches Some(t) && lower_case_of(t@, word) && (word == "1"@ || word == "true"@
            || word == "yes"@ || word == "on"@) ==> r == Ok::<bool, ConfigError>(true),
        *value matches Some(t) && lower_case_of(t@, word) && (word == "0"@ || word == "false"@
            || word == "no"@ || word == "off"@) ==> r == Ok::<bool, ConfigError>(false),
        r matches Err(e) ==> e == ConfigError::BadBoolean(setting),
{
    if let Some(t) = *value {
        crate::laws::config::truth_values_are_spelled_so(t@, word, default);
    }
}

/// A configuration that is made of settings has the directories and the script that they name,
/// an absolute home, and everything that they leave open by default.
pub proof fn configurations_are_made_of_settings(s: Settings, r: Result<Config, ConfigError>)
    requires
        call_ensures(Config::from_settings, (s,), r),
    ensures
        s.home is None ==> r == Err::<Config, ConfigError>(ConfigError::HomeNotSet),
        r matches Ok(c) ==> {
            &&& s.home is Some && c.home@ == s.home->0@ && c.home@.len() > 0 && c.home@[0] == '/'
            &&& c@.data_dir == s@.data_dir
            &&& c@.backup_dir == s@.backup_dir
            &&& c@.preupgrade_script == s@.preupgrade_script
            &&& s.name is Some ==> c.name@ == s.name->0@
            &&& s.name is None ==> c.name@ == "midnight-node"@
            &&& s.rpc_url is Some ==> c.rpc_url@ == s.rpc_url->0@
            &&& s.rpc_url is None ==> c.rpc_url@ == "http://127.0.0.1:9944"@
            &&& s.finality is None ==> c.finality == Finality::Best
            &&& s.poll_interval is None ==> c.poll_interval == (Duration { secs: 5, nanos: 0 })
            &&& s.restart_delay is None ==> c.restart_delay == (Duration { secs: 0, nanos: 0 })
            &&& s.shutdown_grace is None ==> c.shutdown_grace == (Duration { secs: 60, nanos: 0 })
            &&& s.allow_download is None ==> !c.allow_download
            &&& s.must_have_checksum is None ==> c.download_must_have_checksum
            &&& s.restart_after_upgrade is None ==> c.restart_after_upgrade
            &&& s.skip_backup is None ==> !c.unsafe_skip_backup
            &&& s.disable_logs is None ==> !c.disable_logs
            &&& s.poll_interval is Some ==> crate::config::nanoseconds(c.poll_interval)
                == crate::config::spelled(s.poll_interval->0@)
            &&& s.restart_delay is Some ==> crate::config::nanoseconds(c.restart_delay)
                == crate::config::spelled(s.restart_delay->0@)
            &&& s.shutdown_grace is Some ==> crate::config::nanoseconds(c.shutdown_grace)
                == crate::config::spelled(s.shutdown_grace->0@)
        },
{
}

/// A configuration file is layered below the variables, and one with a value that can be no
/// setting is refused whatever the variables say.
pub proof fn files_are_layered_below_variables(
    env: Settings,
    entries: &Vec<(String, Scalar)>,
    r: Result<Config, LoadError>,
    s: Settings,
    i: int,
)
    requires
        call_ensures(Config::load_over, (env, entries), r),
        call_ensures(Settings::over, (env, entries), s),
    ensures
        0 <= i < entries@.len() && entries@[i].1 is Other ==> r matches Err(
            LoadError::Unsupported(_),
        ),
        !(r matches Err(LoadError::Syntax(_))),
        r matches Ok(c) ==> s.home is Some && c.home@ == s.home->0@ && c@.data_dir == s@.data_dir,
        env.data_dir is Some && env.data_dir->0@.len() > 0 ==> s@.data_dir == env@.data_dir,
        env.home is Some && env.home->0@.len() > 0 ==> s@.home == env@.home,
{
    let views = crate::config::entry_views(entries@);
    crate::laws::config::unsupported_values_are_found(views);
    crate::laws::config::variables_win_over_the_file(env@, views);
    if 0 <= i < entries@.len() && entries@[i].1 is Other {
        assert(views[i].1 is Other);
    }
}

/// A request that is accepted gives the plan that was asked for: with the triggers that it was
/// given, or at once where it is to be immediate, under the name that it was given.
pub proof fn requests_give_the_plan_asked_for(
    req: &AddUpgrade<'_>,
    state: &State,
    plan_exists: bool,
    r: Result<UpgradePlan, AddError>,
    name: Result<String, PlanError>,
)
    requires
        call_ensures(plan_upgrade, (req, state, plan_exists), r),
        call_ensures(normalize_name, (req.name,), name),
    ensures
        r matches Ok(p) ==> {
            &&& name is Ok && p.name@ == name->Ok_0@
            &&& p.spec_version == req.spec_version
            &&& !req.immediate ==> p.height == req.height
            &&& req.immediate ==> p.height == Some(0u64)
            &&& req.urls@.len() == 0 ==> p.info is None
            &&& p.height is Some || p.spec_version is Some
        },
        name is Err ==> r matches Err(AddError::Name(_)),
        name is Ok && state@.names().contains(name->Ok_0@) ==> r matches Err(AddError::Applied),
        r is Ok ==> req.force || !plan_exists,
        name is Ok && !state@.names().contains(name->Ok_0@) && plan_exists && !req.force ==> r
            matches Err(AddError::Exists),
{
}

/// What is added is the plan that was asked for, at the place of its own name.
pub proof fn additions_are_what_was_asked_for(
    cfg: &Config,
    req: &AddUpgrade<'_>,
    state: &State,
    plan_exists: bool,
    platform: &str,
    r: Result<Addition, AddError>,
    p: Result<UpgradePlan, AddError>,
    home: &str,
    daemon: &str,
    l: Layout,
)
    requires
        call_ensures(add_upgrade, (cfg, req, state, plan_exists, platform), r),
        call_ensures(plan_upgrade, (req, state, plan_exists), p),
        call_ensures(Layout::new, (home, daemon), l),
        home@ == cfg.home@,
        daemon@ == cfg.name@,
    ensures
        p is Err ==> r is Err,
        r matches Ok(a) ==> {
            &&& p is Ok && a.plan@ == p->Ok_0@
            &&& a.place.dir@ == l@.upgrade_dir(a.plan@.name)
            &&& a.place.file@ == l@.plan_file(a.plan@.name)
            &&& a.binary@ == l@.upgrade_bin(a.plan@.name)
        },
        p is Ok && req.urls@.len() == 0 ==> r is Ok,
{
}

/// `status` shows what the node answers, where it answers; the third line says so.
pub proof fn status_shows_the_live_chain(
    report: &Report,
    cfg: &Config,
    state: &State,
    r: Vec<String>,
    c: ChainStatus,
)
    requires
        call_ensures(Report::lines, (report, cfg, state), r),
        report.chain == Some(c),
    ensures
        r@.len() >= 4,
        ("chain:    height "@ + text::decimal(c.height as nat) + " spec_version "@ + text::decimal(
            c.spec_version as nat,
        ) + " (live, "@).is_prefix_of(r@[2]@),
        r@[0]@ == "home:     "@ + report.home@,
{
    let lines = text::texts(r@);
    crate::laws::commands::status_prints_a_line_for_every_plan(
        report@,
        state@.last_observed,
        cfg.finality,
        cfg.rpc_url@,
    );
    assert(lines[2] == r@[2]@);
    assert(lines[0] == r@[0]@);
    let front = "chain:    height "@ + text::decimal(c.height as nat) + " spec_version "@
        + text::decimal(c.spec_version as nat) + " (live, "@;
    assert(r@[2]@.subrange(0, front.len() as int) =~= front);
}

/// `status` reports what was found, of every plan and of the chain.
pub proof fn status_reports_what_was_found(
    cfg: &Config,
    state: &State,
    plans: &Vec<UpgradePlan>,
    present: &Vec<bool>,
    seen: &Seen,
    platform: &str,
    r: Report,
    i: int,
)
    requires
        call_ensures(status, (cfg, state, plans, present, seen, platform), r),
        present@.len() == plans@.len(),
        0 <= i < plans@.len(),
    ensures
        r.chain == seen.chain,
        r.upgrades@.len() == plans@.len(),
        r.upgrades@[i].name@ == plans@[i].name@,
        r.upgrades@[i].height == plans@[i].height,
        r.upgrades@[i].spec_version == plans@[i].spec_version,
        r.upgrades@[i].binary_present == present@[i],
        r.upgrades@[i].applied <==> state@.names().contains(plans@[i].name@),
        r.current is Some <==> seen.link_known,
        r.current_binary is Some <==> seen.link_known && seen.current_is_file,
{
    assert(r@.upgrades.len() == r.upgrades@.len());
    assert(r@.upgrades.len() == plans@.len());
    assert(r@.upgrades[i] == r.upgrades@[i]@);
}

/// `prepare-upgrade` may download what the operator asks it to, whatever is set; a trigger
/// makes the supervisor download only where that is allowed.
pub proof fn downloads_are_asked_for(
    cfg: &Config,
    layout: &Layout,
    plan: &UpgradePlan,
    there: bool,
    t: Result<Preparation, PrepareError>,
    p: Result<Preparation, PrepareError>,
)
    requires
        call_ensures(prepare_triggered, (cfg, layout, plan, there), t),
        call_ensures(prepare_pending, (cfg, layout, plan, there), p),
    ensures
        t is Ok <==> there || (cfg.allow_download && plan.info is Some),
        p is Ok <==> there || plan.info is Some,
        there ==> t->Ok_0 is Check && p->Ok_0 is Check,
        !there && t is Ok ==> (t matches Ok(Preparation::Download { must_have_checksum, .. })
            && must_have_checksum == cfg.download_must_have_checksum),
        !there && p is Ok ==> (p matches Ok(Preparation::Download { must_have_checksum, .. })
            && must_have_checksum == cfg.download_must_have_checksum),
{
}

/// `prepare-upgrade` goes through the plans that were not applied.
pub proof fn pending_plans_are_prepared(
    state: &State,
    plans: Vec<UpgradePlan>,
    r: Vec<UpgradePlan>,
    p: crate::plan::PlanView,
)
    requires
        call_ensures(prepare_upgrade, (state, plans), r),
    ensures
        plan_views(r@).contains(p) <==> plan_views(plans@).contains(p) && !state@.names().contains(
            p.name,
        ),
{
    crate::commands::pending_are_the_unapplied(plan_views(plans@), state@.names().to_set(), p);
}

/// `prepare-upgrade` succeeds exactly if everything is ready, and else says how much is not.
pub proof fn readiness_is_told(ready: &Vec<bool>, r: Result<(), NotReady>, i: int)
    requires
        call_ensures(readiness, (ready,), r),
        0 <= i < ready@.len(),
    ensures
        !ready@[i] ==> r is Err,
        r matches Err(e) ==> 0 < e.failed <= e.total && e.total == ready@.len(),
        r is Err ==> exists|k: int| 0 <= k < ready@.len() && !(#[trigger] ready@[k]),
{
    crate::laws::commands::all_have_to_be_ready(ready@);
}

/// While the node runs, its exit is passed on with its own code, a signal is passed on to it,
/// and an upgrade that is ready stops it.
pub proof fn node_is_watched(event: NodeEvent, r: Reaction)
    requires
        call_ensures(monitor, (event,), r),
    ensures
        event matches NodeEvent::Exited(code) ==> r == Reaction::Gone(code),
        event matches NodeEvent::Signal(signal) ==> r == Reaction::Forward(signal),
        event matches NodeEvent::Polled(Some(due)) ==> r == Reaction::StopFor(
            due,
            StopSignal::Interrupt,
        ),
        event matches NodeEvent::Polled(None) ==> r == Reaction::Watch,
{
}

/// Once a reaction is done, a signal that came in the meantime ends the run; else an upgrade is
/// applied, and an exit is passed on.
pub proof fn reactions_come_to_an_end(
    reaction: Reaction,
    code: i32,
    signalled: bool,
    r: Option<RunEvent>,
)
    requires
        call_ensures(Reaction::conclude, (reaction, code, signalled), r),
    ensures
        r is None <==> reaction is Watch,
        reaction is Forward ==> r == Some(RunEvent::Stopped(code)),
        reaction matches Reaction::Gone(own) ==> (signalled ==> r == Some(RunEvent::Stopped(own))),
        reaction matches Reaction::Gone(own) ==> (!signalled ==> r == Some(RunEvent::Exited(own))),
        reaction is StopFor && signalled ==> r == Some(RunEvent::Stopped(code)),
        reaction matches Reaction::StopFor(due, _) ==> (!signalled ==> r == Some(
            RunEvent::Upgrade(due),
        )),
{
}

/// A node that exited in time is left alone, and one that did not is killed.
pub proof fn node_is_killed_only_after_the_grace_period(exited: bool, r: AfterGrace)
    requires
        call_ensures(after_grace, (exited,), r),
    ensures
        r == AfterGrace::Kill <==> !exited,
{
}

/// The exit code is the node's own; a node that a signal killed counts for 128 and the signal.
pub proof fn exit_codes_are_passed_on(code: Option<i32>, signal: Option<i32>, r: i32)
    requires
        call_ensures(exit_code, (code, signal), r),
    ensures
        code matches Some(c) ==> r == c,
        code is None && signal is Some ==> r == 128 + signal->0,
{
}

/// A binary passes only if `--version` ran and succeeded.
pub proof fn binaries_have_to_run(v: VersionRun, r: Result<(), BinaryFault>)
    requires
        call_ensures(check_runs, (v,), r),
    ensures
        r is Ok <==> v == (VersionRun::Exited { success: true }),
{
}

/// A binary has to be a file that someone may execute.
pub proof fn binaries_have_to_be_executable(is_file: bool, mode: u32, r: Result<(), BinaryFault>)
    requires
        call_ensures(check_executable, (is_file, mode), r),
    ensures
        !is_file ==> r is Err,
        is_file && (mode & 0o100 != 0 || mode & 0o010 != 0 || mode & 0o001 != 0) ==> r is Ok,
        mode & 0o100 == 0 && mode & 0o010 == 0 && mode & 0o001 == 0 ==> r is Err,
        r matches Err(e) ==> e == BinaryFault::NotExecutable,
{
    assert(mode & 0o111 != 0 <==> (mode & 0o100 != 0 || mode & 0o010 != 0 || mode & 0o001 != 0))
        by (bit_vector);
}

/// An upgrade is applied with a backup exactly if there is something to back up; the switch to
/// the upgrade comes behind it, and then the record and the state file.
pub proof fn upgrades_are_backed_up_and_switched_to(
    cfg: &Config,
    layout: &Layout,
    due: &Due,
    backup_from: &Option<String>,
    r: Vec<ApplyStep>,
)
    requires
        call_ensures(apply_upgrade, (cfg, layout, due, backup_from), r),
    ensures
        ({
            let n = r@.len();
            &&& n >= 3
            &&& r@[n - 3] matches ApplyStep::Switch(name) && name@ == due.plan.name@
            &&& r@[n - 2] matches ApplyStep::Record(name, status) && name@ == due.plan.name@
                && status == due.status
            &&& r@[n - 1] matches ApplyStep::Save(file) && file@ == layout@.state_file()
            &&& forall|i: int|
                #![trigger r@[i]]
                0 <= i < n - 3 ==> r@[i] is Wait || r@[i] is Backup || r@[i] is Script
            &&& backup_from is Some <==> exists|i: int|
                #![trigger r@[i]]
                0 <= i < n - 3 && r@[i] is Backup
            &&& cfg.preupgrade_script is Some <==> exists|i: int|
                #![trigger r@[i]]
                0 <= i < n - 3 && r@[i] is Script
        }),
{
    let steps = crate::supervisor::apply_views(r@);
    let n = r@.len();
    let before = crate::supervisor::steps_before(
        *cfg,
        layout@,
        due@,
        crate::config::opt_text(*backup_from),
    );
    assert(steps.len() == n);
    assert(n == before.len() + 3);
    assert forall|i: int| 0 <= i < n implies #[trigger] steps[i] == r@[i]@ by {}
    assert(steps[n - 3] == r@[n - 3]@);
    assert(steps[n - 2] == r@[n - 2]@);
    assert(steps[n - 1] == r@[n - 1]@);
    assert forall|i: int| #![trigger r@[i]] 0 <= i < n - 3 implies r@[i] is Wait || r@[i] is Backup
        || r@[i] is Script by {
        assert(steps[i] == before[i]);
        assert(steps[i] == r@[i]@);
    }
    let w: int = if cfg.restart_delay == (Duration { secs: 0, nanos: 0 }) {
        0
    } else {
        1
    };
    if backup_from is Some {
        assert(before[w] is Backup);
        assert(steps[w] == before[w]);
        assert(r@[w] is Backup);
    } else {
        assert forall|i: int| #![trigger r@[i]] 0 <= i < n - 3 implies !(r@[i] is Backup) by {
            assert(steps[i] == before[i]);
            assert(steps[i] == r@[i]@);
        }
    }
    if cfg.preupgrade_script is Some {
        let k = before.len() - 1;
        assert(before[k] is Script);
        assert(steps[k] == before[k]);
        assert(r@[k] is Script);
    } else {
        assert forall|i: int| #![trigger r@[i]] 0 <= i < n - 3 implies !(r@[i] is Script) by {
            assert(steps[i] == before[i]);
            assert(steps[i] == r@[i]@);
        }
    }
}

/// An error counts before a result, and a result that is null is none.
pub proof fn replies_are_errors_or_results(
    result: Option<Json>,
    error: Option<RpcError>,
    r: Result<Json, CallError>,
)
    requires
        call_ensures(reply, (result, error), r),
    ensures
        error matches Some(e) ==> (r matches Err(CallError::Rpc(found)) && found == e),
        error is None && (result is None || result->0@ is Null) ==> r matches Err(CallError::Empty),
        error is None && result is Some && !(result->0@ is Null) ==> (r matches Ok(v) && v
            == result->0),
{
}

/// The node is asked at the URL that is set, over HTTP, and no longer than is set.
pub proof fn node_is_asked_where_it_is(
    url: &str,
    timeout: Duration,
    r: Result<RpcClient, url::ParseError>,
    h: String,
)
    requires
        call_ensures(RpcClient::new, (url, timeout), r),
        call_ensures(to_http, (url,), h),
    ensures
        r matches Ok(c) ==> c.target() == h@ && c.patience() == timeout,
        !"ws://"@.is_prefix_of(url@) && !"wss://"@.is_prefix_of(url@) ==> h@ == url@,
        text::after(url@, "ws://"@) matches Some(rest) ==> h@ == "http://"@ + rest,
{
    crate::laws::rpc::websocket_urls_become_http(Seq::empty(), url@);
}

/// The active version's binary is the one that `current` leads to, and is missed exactly if
/// it is not there.
pub proof fn active_binary_is_the_one_pointed_to(
    layout: &Layout,
    link: Option<&str>,
    is_file: bool,
    r: Result<String, MissingBinary>,
    upgrade: &str,
)
    requires
        call_ensures(Layout::current_bin, (layout, link, is_file), r),
    ensures
        r is Ok <==> is_file,
        link is None ==> (match r {
            Ok(bin) => bin@,
            Err(e) => e.path@,
        }) == layout@.bin_path(layout@.genesis_dir()),
        link matches Some(t) && t@ == "upgrades"@ + "/"@ + upgrade@ ==> (match r {
            Ok(bin) => bin@,
            Err(e) => e.path@,
        }) == layout@.bin_path(path::joined(layout@.root, "upgrades"@ + "/"@ + upgrade@)),
{
}

/// `current` is switched to a version only where its directory is there, and by way of a link
/// of another name beside it.
pub proof fn switches_are_made_beside(
    layout: &Layout,
    upgrade: Option<&str>,
    is_dir: bool,
    r: Result<Switch, MissingDirectory>,
)
    requires
        call_ensures(Layout::set_current, (layout, upgrade, is_dir), r),
    ensures
        r is Ok <==> is_dir,
        r matches Ok(s) ==> s.link@ == layout@.current_link() && s.link@ != s.scratch@,
        r matches Ok(s) ==> (upgrade is None ==> s.target@ == "genesis"@),
        r matches Ok(s) ==> (upgrade is Some && crate::plan::valid_name(upgrade->0@) ==> s.target@
            == "upgrades"@ + "/"@ + upgrade->0@),
{
    if let Some(name) = upgrade {
        if crate::plan::valid_name(name@) {
            crate::laws::files::current_leads_where_it_points(layout@, name@, Seq::empty());
        }
    }
    reveal_strlit("current");
    reveal_strlit(".current.tmp");
    let root = layout@.root;
    let a = path::joined(root, "current"@);
    let b = path::joined(root, ".current.tmp"@);
    assert("current"@.len() == 7 && ".current.tmp"@.len() == 12);
    assert(a.len() != b.len());
}

/// A plan is written exactly if it is accepted, and then to the file of its own name.
pub proof fn plans_are_written_to_their_files(
    layout: &Layout,
    plan: &UpgradePlan,
    r: Result<PlanPlace, PlanError>,
    v: Result<(), PlanError>,
    d: Verdict,
    dir_name: &str,
)
    requires
        call_ensures(Layout::save_plan, (layout, plan), r),
        call_ensures(UpgradePlan::validate, (plan,), v),
        call_ensures(judge_plan, (dir_name, plan), d),
    ensures
        r is Ok <==> v is Ok,
        r matches Ok(place) ==> place.dir@ == layout@.upgrade_dir(plan.name@) && place.file@
            == layout@.plan_file(plan.name@),
        d == Verdict::Kept <==> v is Ok && plan.name@ == dir_name@,
{
}

/// The plans of an installation are those that are accepted and lie where they belong, in the
/// order of their names.
pub proof fn plans_are_loaded_in_order(
    layout: &Layout,
    entries: Vec<PlanEntry>,
    r: Vec<UpgradePlan>,
    i: int,
    j: int,
)
    requires
        call_ensures(Layout::load_plans, (layout, entries), r),
        0 <= i <= j < r@.len(),
    ensures
        text::at_most(r@[i].name@, r@[j].name@),
        exists|k: int|
            #![trigger entries@[k]]
            0 <= k < entries@.len() && entries@[k].plan@ == r@[i]@ && entries@[k].dir_name@
                == r@[i].name@,
{
    let views = plan_views(r@);
    assert(views[i] == r@[i]@);
    assert(views[j] == r@[j]@);
    assert(text::at_most(views[i].name, views[j].name));
    assert(views.contains(views[i]));
    crate::layout::loaded_plans_are_the_kept_ones(entries@, views, views[i]);
}

/// A binary is installed only where it is a file, and by way of a file beside its place.
pub proof fn binaries_are_installed_beside_their_place(
    is_file: bool,
    dst: &str,
    r: Result<Install, InstallError>,
)
    requires
        call_ensures(install_executable, (is_file, dst), r),
        path::last_name(dst@) is Some,
    ensures
        !is_file ==> r == Err::<Install, InstallError>(InstallError::NotAFile),
        r matches Ok(i) ==> is_file && path::parent_of(dst@) == Some(i.dir@) && path::components(
            i.scratch@,
        ).len() == path::components(dst@).len() && path::components(i.scratch@).drop_last()
            == path::components(dst@).drop_last(),
{
    if r is Ok {
        crate::layout::scratch_is_beside(dst@);
        let name = path::last_name(dst@)->0;
        let front = path::components(dst@).drop_last();
        assert(front.push(crate::layout::scratch_name(name)).drop_last() =~= front);
    }
}

/// A backup goes below the backup directory, and is refused without data or inside it.
pub proof fn backups_are_placed(
    data_dir: &str,
    is_dir: bool,
    root: &str,
    upgrade: &str,
    now: u64,
    r: Result<String, BackupError>,
)
    requires
        call_ensures(backup_data_dir, (data_dir, is_dir, root, upgrade, now), r),
        now < crate::time::TIMESTAMP_END,
        crate::plan::valid_name(upgrade@),
    ensures
        r matches Err(BackupError::NoData) <==> !is_dir,
        r matches Ok(p) ==> !path::within(p@, data_dir@) && path::within(p@, root@) && (
        "-"@ + upgrade@).is_suffix_of(path::components(p@).last()),
{
    crate::laws::files::backups_go_into_the_backup_directory(root@, upgrade@, now as nat);
    crate::laws::files::backups_are_called_by_time_and_upgrade(upgrade@, upgrade@, now as nat);
    let parts = path::components(root@);
    let name = crate::backup::backup_name(upgrade@, now as nat);
    assert(parts.push(name).subrange(0, parts.len() as int) =~= parts);
    assert(parts.push(name).last() == name);
}

/// A copy is made first, and gets its permissions last; in between every entry is copied, a
/// link as a link and a directory as a directory.
pub proof fn copies_hold_every_entry(
    entries: &Vec<Entry>,
    src: &str,
    dst: &str,
    r: Vec<CopyStep>,
    i: int,
)
    requires
        call_ensures(copy_dir, (entries, src, dst), r),
        0 <= i < entries@.len(),
    ensures
        r@.len() == entries@.len() + 2,
        r@[0] matches CopyStep::Make(p) && p@ == dst@,
        r@[r@.len() - 1] matches CopyStep::Permissions(a, b) && a@ == src@ && b@ == dst@,
        entries@[i].kind == EntryKind::Link ==> r@[i + 1] is Link,
        entries@[i].kind == EntryKind::Dir ==> r@[i + 1] is Dir,
        entries@[i].kind == EntryKind::Other ==> r@[i + 1] is File,
{
    let steps = crate::backup::step_views(r@);
    assert(steps.len() == r@.len());
    assert(steps[0] == r@[0]@);
    assert(steps[i + 1] == r@[i + 1]@);
    assert(steps[r@.len() - 1] == r@[r@.len() - 1]@);
}

/// Download instructions that are a text are the URL of a document; else they name a binary,
/// as a document does.
pub proof fn instructions_lead_to_a_binary(
    d: &Downloader,
    info: &Json,
    platform: &str,
    r: Result<Instructions, InfoError>,
    s: Result<String, InfoError>,
    h: bool,
)
    requires
        call_ensures(Downloader::install, (d, info, platform), r),
        call_ensures(select_binary, (info, platform), s),
        call_ensures(has_download_info, (Some(info), platform), h),
    ensures
        info@ matches JsonView::Text(url) ==> (r matches Ok(Instructions::Document(u)) && u@ == url),
        !(info@ is Text) && s is Ok ==> (r matches Ok(Instructions::Binary(u)) && u@ == s->Ok_0@),
        !(info@ is Text) && s is Err ==> (r matches Err(e) && e == s->Err_0),
        h <==> r is Ok,
{
}

/// A download without a checksum is refused exactly if checksums are insisted on.
pub proof fn unchecked_downloads_are_refused(
    d: &Downloader,
    url: String,
    sum: Option<Checksum>,
    r: Result<Fetch, FetchError>,
)
    requires
        call_ensures(Downloader::fetch_split, (d, url, sum), r),
    ensures
        r is Err <==> d.strict() && sum is None,
        r matches Ok(f) ==> f.url@ == url@ && (f.checksum is Some <==> sum is Some) && (sum is Some
            ==> f.checksum->0@ == sum->0@),
        r matches Ok(f) ==> (text::after(url@, "file://"@) is Some ==> (f.source
            matches Source::File(p) && url@ == "file://"@ + p@)),
{
    crate::laws::text::prefix_was_there(url@, "file://"@);
}

/// What was downloaded passes exactly if it has the digest that was asked for.
pub proof fn downloads_are_checked(
    f: &Fetch,
    hasher: Option<Hasher>,
    r: Result<(), Mismatch>,
)
    requires
        call_ensures(Fetch::verify, (f, hasher), r),
        crate::download::checkable(crate::download::sum_view(f.checksum), hasher),
    ensures
        f.checksum matches Some(sum) ==> (hasher matches Some(h) && (r is Ok <==> h.digest()
            == sum@.digits())),
        f.checksum is None ==> r is Ok,
{
}

/// A file is unpacked by its first bytes.
pub proof fn packing_is_told_by_the_first_bytes(magic: &[u8], r: Packing)
    requires
        call_ensures(packing, (magic,), r),
    ensures
        magic@.len() >= 2 && magic@[0] == 0x1f && magic@[1] == 0x8b ==> r == Packing::TarGz,
        magic@.len() >= 4 && magic@[0] == 0x50 && magic@[1] == 0x4b && magic@[2] == 0x03 && magic@[3]
            == 0x04 ==> r == Packing::Zip,
        r == Packing::TarGz ==> magic@.len() >= 2 && magic@[0] == 0x1f && magic@[1] == 0x8b,
        r == Packing::Zip ==> magic@.len() >= 4 && magic@[0] == 0x50 && magic@[1] == 0x4b
            && magic@[2] == 0x03 && magic@[3] == 0x04,
{
    let gz = seq![0x1fu8, 0x8bu8];
    let zip = seq![0x50u8, 0x4bu8, 0x03u8, 0x04u8];
    if magic@.len() >= 2 && magic@[0] == 0x1f && magic@[1] == 0x8b {
        assert(magic@.subrange(0, 2) =~= gz);
        assert(gz.is_prefix_of(magic@));
    }
    if magic@.len() >= 4 && magic@[0] == 0x50 && magic@[1] == 0x4b && magic@[2] == 0x03 && magic@[3]
        == 0x04 {
        assert(magic@.subrange(0, 4) =~= zip);
        assert(zip.is_prefix_of(magic@));
        if gz.is_prefix_of(magic@) {
            assert(magic@.subrange(0, 2)[0] == gz[0]);
        }
    }
    crate::laws::download::archives_are_known_by_their_first_bytes(magic@, magic@);
}

/// In an archive the binary is taken from `bin`, else from the top, and else where it is found.
pub proof fn archives_are_searched_in_order(
    dir: &str,
    name: &str,
    in_bin: bool,
    on_top: bool,
    nodes: &Vec<Node>,
    r: Result<Option<String>, String>,
    f: Result<Option<String>, String>,
)
    requires
        call_ensures(unpack, (dir, name, in_bin, on_top, nodes), r),
        call_ensures(find_file, (nodes, dir, name), f),
    ensures
        in_bin ==> (r matches Ok(Some(p)) && p@ == path::joined(
            path::joined(dir@, "bin"@),
            name@,
        )),
        !in_bin && on_top ==> (r matches Ok(Some(p)) && p@ == path::joined(dir@, name@)),
        !in_bin && !on_top ==> (r is Ok <==> f is Ok),
        !in_bin && !on_top && f is Ok && f->Ok_0 is Some ==> (r matches Ok(Some(q)) && q@
            == f->Ok_0->0@),
        !in_bin && !on_top && f is Ok && f->Ok_0 is None ==> r->Ok_0 is None,
{
}

/// A platform is its system and its processor, as Go names them.
pub proof fn platforms_are_named(os: &str, arch: &str, r: String)
    requires
        call_ensures(platform, (os, arch), r),
    ensures
        os@ == "linux"@ && arch@ == "x86_64"@ ==> r@ == "linux/amd64"@,
        os@ == "linux"@ && arch@ == "aarch64"@ ==> r@ == "linux/arm64"@,
        os@ == "macos"@ && arch@ == "aarch64"@ ==> r@ == "darwin/arm64"@,
{
    reveal_strlit("linux");
    reveal_strlit("macos");
    reveal_strlit("darwin");
    reveal_strlit("/");
    reveal_strlit("amd64");
    reveal_strlit("arm64");
    reveal_strlit("linux/amd64");
    reveal_strlit("linux/arm64");
    reveal_strlit("darwin/arm64");
    crate::laws::download::platforms_are_named_as_in_go(os@);
    crate::laws::download::platforms_are_named_as_in_go(arch@);
    assert("linux"@[0] != "macos"@[0]);
    assert("linux"@ + "/"@ + "amd64"@ =~= "linux/amd64"@);
    assert("linux"@ + "/"@ + "arm64"@ =~= "linux/arm64"@);
    assert("darwin"@ + "/"@ + "arm64"@ =~= "darwin/arm64"@);
}

/// A span of milliseconds is that many milliseconds long, and empty exactly if there are none.
pub proof fn milliseconds_add_up(millis: u64, r: Duration, zero: bool)
    requires
        call_ensures(Duration::from_millis, (millis,), r),
        call_ensures(Duration::is_zero, (&r,), zero),
    ensures
        r.secs * 1_000_000_000 + r.nanos == millis * 1_000_000,
        zero <==> millis == 0,
{
}

/// `init` installs the genesis binary and leaves a link and a state that are there alone.
pub proof fn init_installs_the_binary(cfg: &Config, seen: InitSeen, r: Vec<InitStep>, i: int)
    requires
        call_ensures(init, (cfg, seen), r),
        0 <= i < r@.len(),
    ensures
        r@[i] is PointToGenesis ==> !seen.link,
        r@[i] is SaveState ==> !seen.state,
        r@[i] is Overwrites ==> seen.binary,
        exists|k: int| #![trigger r@[k]] 0 <= k < r@.len() && r@[k] is Install,
        !seen.link ==> exists|k: int| #![trigger r@[k]] 0 <= k < r@.len() && r@[k] is PointToGenesis,
        !seen.state ==> exists|k: int| #![trigger r@[k]] 0 <= k < r@.len() && r@[k] is SaveState,
{
    let layout = crate::commands::layout_of(*cfg);
    let steps = crate::commands::init_views(r@);
    crate::laws::commands::init_leaves_alone_what_is_there(layout, seen);
    assert(steps.len() == r@.len());
    assert(steps[i] == r@[i]@);
    assert(steps.contains(steps[i]));
    let dest = layout.bin_path(layout.genesis_dir());
    assert(steps.contains(crate::commands::InitView::Install(dest)));
    let k = choose|k: int|
        0 <= k < steps.len() && steps[k] == crate::commands::InitView::Install(dest);
    assert(steps[k] == r@[k]@);
    assert(r@[k] is Install);
    if !seen.link {
        let k = choose|k: int|
            0 <= k < steps.len() && steps[k] == crate::commands::InitView::PointToGenesis;
        assert(steps[k] == r@[k]@);
        assert(r@[k] is PointToGenesis);
    }
    if !seen.state {
        let file = layout.state_file();
        assert(steps.contains(crate::commands::InitView::SaveState(file)));
        let k = choose|k: int|
            0 <= k < steps.len() && steps[k] == crate::commands::InitView::SaveState(file);
        assert(steps[k] == r@[k]@);
        assert(r@[k] is SaveState);
    }
}

/// A plan is added only if every URL can be downloaded from; else the first that cannot be is
/// told.
pub proof fn first_bad_url_is_told(
    cfg: &Config,
    req: &AddUpgrade<'_>,
    state: &State,
    plan_exists: bool,
    platform: &str,
    r: Result<Addition, AddError>,
    j: int,
)
    requires
        call_ensures(add_upgrade, (cfg, req, state, plan_exists, platform), r),
        0 <= j < req.urls@.len(),
    ensures
        r is Ok ==> crate::commands::usable_url(crate::commands::url_entry(req.urls@[j]@).1),
        r matches Err(AddError::Url(i, _)) ==> i < req.urls@.len() && !crate::commands::usable_url(
            crate::commands::url_entry(req.urls@[i as int]@).1,
        ) && (j < i ==> crate::commands::usable_url(
            crate::commands::url_entry(req.urls@[j]@).1,
        )),
{
    let all = text::texts(req.urls@);
    assert(all[j] == req.urls@[j]@);
    if let Err(AddError::Url(i, _)) = r {
        if i < req.urls@.len() {
            assert(all[i as int] == req.urls@[i as int]@);
        }
    }
}

/// A poll starts by asking for the status, and one that is over gives what it found, and only
/// then.
pub proof fn polls_give_what_they_found(
    first: crate::supervisor::PollStage,
    stage: crate::supervisor::PollStage,
    r: Option<NodeEvent>,
)
    requires
        call_ensures(crate::supervisor::PollStage::start, (), first),
        call_ensures(crate::supervisor::PollStage::into_event, (stage,), r),
    ensures
        first is Ask,
        r is Some <==> stage is Over,
        stage matches crate::supervisor::PollStage::Over(due, _) ==> r == Some(
            NodeEvent::Polled(due),
        ),
{
}

/// A destination that lies in no directory cannot be installed to.
pub proof fn binaries_need_a_directory(is_file: bool, dst: &str, r: Result<Install, InstallError>)
    requires
        call_ensures(install_executable, (is_file, dst), r),
        path::parent_of(dst@) is None,
    ensures
        is_file ==> r == Err::<Install, InstallError>(InstallError::NoParent),
        !is_file ==> r == Err::<Install, InstallError>(InstallError::NotAFile),
{
}

/// A platform that Go names as Rust does is written with a slash between its parts.
pub proof fn other_platforms_are_named_as_they_are(os: &str, arch: &str, r: String)
    requires
        call_ensures(platform, (os, arch), r),
        os@ != "macos"@,
        arch@ != "x86_64"@,
        arch@ != "aarch64"@,
        arch@ != "x86"@,
    ensures
        r@ == os@ + "/"@ + arch@,
{
    crate::laws::download::platforms_are_named_as_in_go(os@);
    crate::laws::download::platforms_are_named_as_in_go(arch@);
}

/// A configuration is refused for the first setting that cannot be read, and the home is the
/// very first.
pub proof fn configurations_are_refused_for_a_reason(s: Settings, r: Result<Config, ConfigError>)
    requires
        call_ensures(Config::from_settings, (s,), r),
    ensures
        s.home is Some && !(s.home->0@.len() > 0 && s.home->0@[0] == '/') ==> r == Err::<
            Config,
            ConfigError,
        >(ConfigError::HomeNotAbsolute),
        s.home is Some && s.home->0@.len() > 0 && s.home->0@[0] == '/' && s.name is Some && (
        s.name->0@.len() == 0 || s.name->0@.contains('/')) ==> r == Err::<Config, ConfigError>(
            ConfigError::BadName,
        ),
        r matches Ok(c) ==> !(c.poll_interval.secs == 0 && c.poll_interval.nanos == 0),
{
}

} // verus!
