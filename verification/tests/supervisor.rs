use midnight_node_updater::config::{Config, Settings};
use midnight_node_updater::json::Json;
use midnight_node_updater::layout::Layout;
use midnight_node_updater::plan::{ChainStatus, UpgradePlan};
use midnight_node_updater::state::State;
use midnight_node_updater::supervisor::{
    after_grace, already_triggered, apply_upgrade, check_executable, check_runs, due_plan, exit_code, monitor,
    prepare_binary, prepare_triggered, run, run_preupgrade, warn_unprepared_plans, AfterGrace,
    ApplyStep, BinaryFault, Due,
    NodeEvent, PollEvent, PollStage, Polled, Preparation, PrepareError, Reaction, Remark, RunEvent,
    RunStage, Standing,
    StartError, StopSignal, Supervisor, VersionRun, Watch, NAG_EVERY, PERSIST_EVERY,
};
use midnight_node_updater::time::Duration;

const S: ChainStatus = ChainStatus { height: 10, spec_version: 5 };

fn cfg(pairs: &[(&str, &str)]) -> Config {
    Config::from_settings(Settings::look_up(|k| {
        pairs
            .iter()
            .find(|(key, _)| *key == k)
            .map(|(_, v)| v.to_string())
            .or_else(|| if k == "DAEMON_HOME" { Some("/h".to_string()) } else { None })
    }))
    .unwrap()
}

fn plan(name: &str, height: u64) -> UpgradePlan {
    UpgradePlan { name: name.into(), height: Some(height), spec_version: None, info: None }
}

fn due(name: &str) -> Due {
    Due { plan: plan(name, 1), status: S }
}

fn start(pairs: &[(&str, &str)]) -> Supervisor {
    run(&cfg(pairs), &[], None, None, true).unwrap().supervisor
}

fn with_data() -> Supervisor {
    start(&[("DAEMON_DATA_DIR", "/data")])
}

fn stage(s: &Supervisor) -> String {
    match s.stage() {
        RunStage::Load => "load".to_string(),
        RunStage::Prepare(d) => format!("prepare {}", d.plan.name),
        RunStage::Apply(d, b) => format!("apply {} {}", d.plan.name, b.clone().unwrap_or_default()),
        RunStage::Launch => "launch".to_string(),
        RunStage::Recheck(c) => format!("recheck {c}"),
        RunStage::PrepareAgain(d, c) => format!("prepare again {} {c}", d.plan.name),
        RunStage::Exit(c) => format!("exit {c}"),
    }
}

#[test]
fn starts_are_checked() {
    let e = run(&cfg(&[]), &[], None, Some("upgrades/v1"), false).unwrap_err();
    assert!(
        matches!(e, StartError::NoBinary(p) if p == "/h/midnight-node-updater/upgrades/v1/bin/midnight-node")
    );
    let e = run(&cfg(&[]), &[], None, None, true).unwrap_err();
    assert!(matches!(e, StartError::NoDataDir));
    let e = run(
        &cfg(&[("UNSAFE_SKIP_BACKUP", "1"), ("DAEMON_RPC_URL", "nowhere")]),
        &[],
        None,
        None,
        true,
    )
    .unwrap_err();
    assert!(matches!(e, StartError::Rpc(_)));
    let args = ["--base-path".to_string(), "/d".to_string()];
    let s = run(&cfg(&[("DAEMON_RPC_URL", "ws://x")]), &args, None, None, true).unwrap();
    assert_eq!(s.rpc.url(), "http://x");
    assert_eq!(s.rpc.timeout(), Duration::from_secs(5));
    assert!(run(&cfg(&[]), &[], Some("/d".to_string()), None, true).is_ok());
}

#[test]
fn applies_before_launch() {
    let s = with_data().next(RunEvent::Found(Some(due("v2"))));
    assert_eq!(stage(&s), "prepare v2");
    let s = s.next(RunEvent::Ready(true));
    assert_eq!(stage(&s), "apply v2 /data");
    let s = s.next(RunEvent::Applied);
    assert_eq!(stage(&s), "load");
    // No second backup without the node running in between.
    let s = s.next(RunEvent::Found(Some(due("v3")))).next(RunEvent::Ready(true));
    assert_eq!(stage(&s), "apply v3 ");
    let s = s.next(RunEvent::Applied).next(RunEvent::Found(None));
    assert_eq!(stage(&s), "launch");
    let s = s.next(RunEvent::Upgrade(due("v4")));
    assert_eq!(stage(&s), "apply v4 /data");
}

#[test]
fn launches_when_not_ready() {
    let s = with_data().next(RunEvent::Found(Some(due("v2")))).next(RunEvent::Ready(false));
    assert_eq!(stage(&s), "launch");
}

#[test]
fn skipped_backups_stay_skipped() {
    let s = start(&[("UNSAFE_SKIP_BACKUP", "true")]).next(RunEvent::Found(None));
    assert_eq!(stage(&s.next(RunEvent::Upgrade(due("v2")))), "apply v2 ");
}

#[test]
fn exits_with_the_code_of_the_node() {
    let s = with_data().next(RunEvent::Found(None)).next(RunEvent::Exited(3));
    assert_eq!(stage(&s), "recheck 3");
    let s = s.next(RunEvent::Found(None));
    assert_eq!(stage(&s), "exit 3");
    assert_eq!(stage(&s.next(RunEvent::Applied)), "exit 3");

    let s = with_data().next(RunEvent::Found(None)).next(RunEvent::Exited(3));
    let s = s.next(RunEvent::Found(Some(due("v2"))));
    assert_eq!(stage(&s), "prepare again v2 3");
    assert_eq!(stage(&s.next(RunEvent::Ready(false))), "exit 3");

    let s = with_data().next(RunEvent::Found(None)).next(RunEvent::Exited(3));
    let s = s.next(RunEvent::Found(Some(due("v2")))).next(RunEvent::Ready(true));
    assert_eq!(stage(&s), "load");
    let s = s.next(RunEvent::Found(Some(due("v2")))).next(RunEvent::Ready(true));
    assert_eq!(stage(&s), "apply v2 /data");
}

#[test]
fn signals_end_the_run() {
    for restart in ["true", "false"] {
        let pairs = [("DAEMON_DATA_DIR", "/data"), ("DAEMON_RESTART_AFTER_UPGRADE", restart)];
        for sig in [StopSignal::Interrupt, StopSignal::Terminate] {
            let s = start(&pairs).next(RunEvent::Found(None));
            let reaction = monitor(NodeEvent::Signal(sig));
            assert!(matches!(reaction, Reaction::Forward(forwarded) if forwarded == sig));
            let s = s.next(reaction.conclude(143, false).unwrap());
            assert_eq!(stage(&s), "exit 143");
            let s = s.next(RunEvent::Found(Some(due("v2")))).next(RunEvent::Ready(true));
            assert_eq!(stage(&s), "exit 143");
        }
    }
}

#[test]
fn reactions_lead_to_outcomes() {
    assert!(monitor(NodeEvent::Polled(None)).conclude(0, false).is_none());
    assert!(matches!(monitor(NodeEvent::Exited(4)).conclude(9, false), Some(RunEvent::Exited(4))));
    match monitor(NodeEvent::Polled(Some(due("v2")))).conclude(0, false) {
        Some(RunEvent::Upgrade(d)) => assert_eq!(d.plan.name, "v2"),
        other => panic!("{other:?}"),
    }
    assert!(matches!(
        monitor(NodeEvent::Polled(Some(due("v2")))).conclude(130, true),
        Some(RunEvent::Stopped(130))
    ));
    assert!(matches!(monitor(NodeEvent::Exited(4)).conclude(9, true), Some(RunEvent::Stopped(4))));
    assert!(monitor(NodeEvent::Polled(None)).conclude(0, true).is_none());
    assert_eq!(after_grace(true), AfterGrace::Done);
    assert_eq!(after_grace(false), AfterGrace::Kill);
}

#[test]
fn node_is_stopped_only_for_a_ready_binary() {
    let mut w = Watch::start(0);
    let mut state = State::default();
    let mut end = |ready: bool, now: u128| {
        let stage = PollStage::Prepare(due("v2"));
        monitor(stage.next(PollEvent::Ready(ready), &mut w, &mut state, now).into_event().unwrap())
    };
    assert!(matches!(end(false, 1), Reaction::Watch));
    assert!(matches!(end(false, 2), Reaction::Watch));
    assert!(matches!(end(true, 3), Reaction::StopFor(d, StopSignal::Interrupt) if d.plan.name == "v2"));
}

#[test]
fn polls_find_what_is_due_and_ready() {
    let mut w = Watch::start(0);
    let mut state = State::default();
    state.record_applied("v1", Some(S), 0);
    let plans = || vec![plan("v1", 1), plan("v3", 8), plan("v2", 5), plan("v9", 99)];
    for ready in [true, false] {
        let s = PollStage::start();
        assert!(s.into_event().is_none());
        let s = PollStage::start().next(PollEvent::Status(Some(S), 7), &mut w, &mut state, 1);
        assert!(matches!(&s, PollStage::Look(status, seen) if *status == S && seen.save == ready));
        let observed = state.last_observed.as_ref().unwrap();
        assert_eq!((observed.status, observed.observed_at.as_str()), (S, "1970-01-01T00:00:07Z"));
        let s = s.next(PollEvent::Plans(plans()), &mut w, &mut state, 2);
        assert!(matches!(&s, PollStage::Prepare(d) if d.plan.name == "v2" && d.status == S));
        let s = s.next(PollEvent::Ready(ready), &mut w, &mut state, 3);
        match (ready, &s) {
            (true, PollStage::Over(Some(d), Remark::Nothing)) => assert_eq!(d.plan.name, "v2"),
            (false, PollStage::Over(None, Remark::NotReady { nag: true })) => {}
            other => panic!("{other:?}"),
        }
        match s.into_event() {
            Some(NodeEvent::Polled(d)) => assert_eq!(d.is_some(), ready),
            other => panic!("{other:?}"),
        }
    }
}

#[test]
fn polls_find_nothing_without_a_status_or_a_due_plan() {
    let mut w = Watch::start(0);
    let mut state = State::default();
    state.observe(S, 5);
    for was_up in [false, false, true] {
        if was_up {
            w.observe(&mut state, S, 6, 5);
        }
        let s = PollStage::start().next(PollEvent::Status(None, 9), &mut w, &mut state, 1);
        assert!(matches!(&s, PollStage::Over(None, Remark::Unreachable { was_up: u }) if *u == was_up));
        assert_eq!(state.last_observed.as_ref().unwrap().observed_at, "1970-01-01T00:00:05Z");
        assert!(matches!(s.into_event(), Some(NodeEvent::Polled(None))));
    }
    let s = PollStage::start().next(PollEvent::Status(Some(S), 9), &mut w, &mut state, 1);
    let s = s.next(PollEvent::Plans(vec![plan("v9", 99)]), &mut w, &mut state, 1);
    assert!(matches!(s, PollStage::Over(None, Remark::Nothing)));
}

#[test]
fn polls_stay_where_they_are_when_told_something_else() {
    let mut w = Watch::start(0);
    let mut state = State::default();
    let s = PollStage::start().next(PollEvent::Ready(true), &mut w, &mut state, 1);
    assert!(matches!(s, PollStage::Ask));
    let s = PollStage::Prepare(due("v2")).next(PollEvent::Status(Some(S), 1), &mut w, &mut state, 1);
    assert!(matches!(s, PollStage::Prepare(_)));
    assert!(state.last_observed.is_none());
    let s = PollStage::Over(Some(due("v2")), Remark::Nothing);
    let s = s.next(PollEvent::Ready(false), &mut w, &mut state, 1);
    assert!(matches!(s.into_event(), Some(NodeEvent::Polled(Some(_)))));
}

#[test]
fn exits_after_upgrade_when_told_not_to_restart() {
    let pairs = [("DAEMON_DATA_DIR", "/data"), ("DAEMON_RESTART_AFTER_UPGRADE", "false")];
    let s = start(&pairs).next(RunEvent::Found(None));
    let s = s.next(RunEvent::Upgrade(due("v2"))).next(RunEvent::Applied);
    assert_eq!(stage(&s), "exit 0");
    let s = start(&pairs).next(RunEvent::Found(None)).next(RunEvent::Exited(7));
    assert_eq!(stage(&s), "exit 7");
}

#[test]
fn events_out_of_turn_change_nothing() {
    let s = with_data().next(RunEvent::Applied);
    assert_eq!(stage(&s), "load");
    let s = s.next(RunEvent::Found(None)).next(RunEvent::Ready(true));
    assert_eq!(stage(&s), "launch");
}

#[test]
fn exit_codes() {
    assert_eq!(exit_code(Some(0), None), 0);
    assert_eq!(exit_code(Some(101), Some(9)), 101);
    assert_eq!(exit_code(None, Some(9)), 137);
    assert_eq!(exit_code(None, None), 128);
}

#[test]
fn due_plans_are_found() {
    let plans = vec![plan("v3", 8), plan("v2", 5), plan("v9", 99)];
    let mut state = State::default();
    assert!(already_triggered(&plans, &state).is_none());
    state.observe(S, 0);
    let d = already_triggered(&plans, &state).unwrap();
    assert_eq!((d.plan.name.as_str(), d.status), ("v2", S));
    state.record_applied("v2", Some(S), 0);
    assert_eq!(already_triggered(&plans, &state).unwrap().plan.name, "v3");
    state.record_applied("v3", Some(S), 0);
    assert!(already_triggered(&plans, &state).is_none());
    let later = ChainStatus { height: 100, spec_version: 5 };
    assert_eq!(due_plan(&plans, &state, later).unwrap().plan.name, "v9");
}

#[test]
fn node_events_are_reacted_to() {
    assert!(matches!(monitor(NodeEvent::Exited(4)), Reaction::Gone(4)));
    assert!(matches!(
        monitor(NodeEvent::Signal(StopSignal::Terminate)),
        Reaction::Forward(StopSignal::Terminate)
    ));
    assert!(matches!(monitor(NodeEvent::Polled(None)), Reaction::Watch));
    match monitor(NodeEvent::Polled(Some(due("v2")))) {
        Reaction::StopFor(d, StopSignal::Interrupt) => assert_eq!(d.plan.name, "v2"),
        other => panic!("{other:?}"),
    }
}

#[test]
fn observations_are_saved_on_change_and_in_time() {
    let mut state = State::default();
    let mut w = Watch::start(100);
    let o = w.observe(&mut state, S, 101, 0);
    assert!(o.reachable && o.spec_changed && o.save);
    assert_eq!(state.last_observed.as_ref().unwrap().status, S);
    w.saved(101);
    let o = w.observe(&mut state, S, 101 + PERSIST_EVERY - 1, 0);
    assert!(!o.reachable && !o.spec_changed && !o.save);
    let o = w.observe(&mut state, S, 101 + PERSIST_EVERY, 0);
    assert!(!o.spec_changed && o.save);
    let o = w.observe(&mut state, ChainStatus { height: 11, spec_version: 6 }, 101, 0);
    assert!(o.spec_changed && o.save);
    assert!(w.unreachable());
    assert!(!w.unreachable());
    assert!(w.observe(&mut state, S, 102, 0).reachable);
}

#[test]
fn nags_are_a_minute_apart() {
    let mut w = Watch::start(0);
    let nag = |w: &mut Watch, name: &str, now: u128| match w.poll(due(name), false, now) {
        Polled::NotReady { nag } => nag,
        other => panic!("{other:?}"),
    };
    assert!(nag(&mut w, "v2", 5));
    assert!(!nag(&mut w, "v2", 5 + NAG_EVERY - 1));
    assert!(nag(&mut w, "v3", 6));
    assert!(nag(&mut w, "v2", 5 + NAG_EVERY));
    assert!(!nag(&mut w, "v2", 6 + NAG_EVERY));
    assert!(nag(&mut w, "v3", 6 + NAG_EVERY));
    match w.poll(due("v2"), true, 7) {
        Polled::Upgrade(d) => assert_eq!(d.plan.name, "v2"),
        other => panic!("{other:?}"),
    }
}

#[test]
fn binaries_are_prepared() {
    let c = cfg(&[]);
    let l = Layout::new("/h", "midnight-node");
    let bin = "/h/midnight-node-updater/upgrades/v2/bin/midnight-node";
    let mut p = plan("v2", 1);
    assert!(
        matches!(prepare_binary(&c, &l, &p, false, true), Ok(Preparation::Check(b)) if b == bin)
    );
    assert!(
        matches!(prepare_binary(&c, &l, &p, true, false), Err(PrepareError::NoInfo(b)) if b == bin)
    );
    p.info = Some(Json::Text("https://doc".to_string()));
    assert!(
        matches!(prepare_binary(&c, &l, &p, false, false), Err(PrepareError::DownloadDisabled(b)) if b == bin)
    );
    assert!(matches!(
        prepare_binary(&c, &l, &p, true, false),
        Ok(Preparation::Download { bin: b, must_have_checksum: true }) if b == bin
    ));
    assert!(matches!(
        prepare_triggered(&c, &l, &p, false),
        Err(PrepareError::DownloadDisabled(b)) if b == bin
    ));
    let open = cfg(&[("DAEMON_ALLOW_DOWNLOAD_BINARIES", "1")]);
    assert!(matches!(prepare_triggered(&open, &l, &p, false), Ok(Preparation::Download { .. })));
    assert_eq!(check_executable(true, 0o755), Ok(()));
    assert_eq!(check_executable(true, 0o644), Err(BinaryFault::NotExecutable));
    assert_eq!(check_executable(false, 0o755), Err(BinaryFault::NotExecutable));
    assert_eq!(check_runs(VersionRun::Exited { success: true }), Ok(()));
    assert_eq!(check_runs(VersionRun::Exited { success: false }), Err(BinaryFault::Failed));
    assert_eq!(check_runs(VersionRun::TimedOut), Err(BinaryFault::TimedOut));
    assert_eq!(check_runs(VersionRun::NotStarted), Err(BinaryFault::NotStarted));
}

fn steps(v: Vec<ApplyStep>) -> Vec<String> {
    v.into_iter()
        .map(|s| match s {
            ApplyStep::Wait(d) => format!("wait {}", d.secs),
            ApplyStep::Backup { data_dir, root } => format!("backup {data_dir} {root}"),
            ApplyStep::Script(c) => format!("script {}", c.program),
            ApplyStep::Switch(n) => format!("switch {n}"),
            ApplyStep::Record(n, s) => format!("record {n} {}", s.height),
            ApplyStep::Save(p) => format!("save {p}"),
        })
        .collect()
}

#[test]
fn upgrades_are_applied_in_steps() {
    let l = Layout::new("/h", "midnight-node");
    let c = cfg(&[("DAEMON_RESTART_DELAY", "2s"), ("DAEMON_PREUPGRADE_SCRIPT", "pre.sh")]);
    assert_eq!(
        steps(apply_upgrade(&c, &l, &due("v2"), &Some("/data".to_string()))),
        [
            "wait 2",
            "backup /data /h/backups",
            "script /h/midnight-node-updater/pre.sh",
            "switch v2",
            "record v2 10",
            "save /h/midnight-node-updater/state.json",
        ]
    );
    let c = cfg(&[("DAEMON_DATA_BACKUP_DIR", "/bk")]);
    assert_eq!(
        steps(apply_upgrade(&c, &l, &due("v2"), &Some("/data".to_string())))[0],
        "backup /data /bk"
    );
    assert_eq!(steps(apply_upgrade(&c, &l, &due("v2"), &None)).len(), 3);
}

#[test]
fn scripts_learn_of_the_upgrade() {
    let l = Layout::new("/h", "midnight-node");
    let r = run_preupgrade(&cfg(&[]), &l, "/opt/pre.sh", &due("v2"));
    assert_eq!(r.program, "/opt/pre.sh");
    assert_eq!(r.args, ["v2", "10"]);
    let env: Vec<(&str, &str)> = r.env.iter().map(|(k, v)| (k.as_str(), v.as_str())).collect();
    assert_eq!(
        env,
        [
            ("DAEMON_HOME", "/h"),
            ("DAEMON_NAME", "midnight-node"),
            ("MIDNIGHT_NODE_UPDATER_UPGRADE_NAME", "v2"),
            ("MIDNIGHT_NODE_UPDATER_UPGRADE_HEIGHT", "10"),
            ("MIDNIGHT_NODE_UPDATER_UPGRADE_SPEC_VERSION", "5"),
            (
                "MIDNIGHT_NODE_UPDATER_UPGRADE_BIN",
                "/h/midnight-node-updater/upgrades/v2/bin/midnight-node"
            ),
        ]
    );
}

#[test]
fn unprepared_plans_are_warned_of() {
    let l = Layout::new("/h", "midnight-node");
    let mut state = State::default();
    state.record_applied("v1", None, 0);
    let mut from_url = plan("v3", 3);
    from_url.info = Some(Json::Text("https://doc".to_string()));
    let plans = vec![plan("v1", 1), plan("v2", 2), from_url, plan("v4", 4)];
    let exists = vec![false, true, false, false];
    let standings = |c: &Config| -> Vec<(String, Standing)> {
        warn_unprepared_plans(c, &l, &state, &plans, &exists, "p")
            .into_iter()
            .map(|n| (n.name, n.standing))
            .collect()
    };
    assert_eq!(
        standings(&cfg(&[("DAEMON_ALLOW_DOWNLOAD_BINARIES", "1")])),
        [
            ("v2".to_string(), Standing::Installed),
            ("v3".to_string(), Standing::WillDownload),
            ("v4".to_string(), Standing::Missing),
        ]
    );
    assert_eq!(standings(&cfg(&[]))[1], ("v3".to_string(), Standing::Missing));
    let n = &warn_unprepared_plans(&cfg(&[]), &l, &state, &plans, &exists, "p")[0];
    assert_eq!(n.trigger, "height >= 2");
    assert_eq!(n.bin, "/h/midnight-node-updater/upgrades/v2/bin/midnight-node");
}
