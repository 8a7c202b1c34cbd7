use midnight_node_updater::commands::{
    add_upgrade, finality_name, init, plan_upgrade, prepare_pending, prepare_upgrade, readiness, split_url_entry,
    status, AddError, AddUpgrade, InitSeen, InitStep, NotReady, Seen,
};
use midnight_node_updater::config::{Config, Finality, Settings};
use midnight_node_updater::download::{ChecksumError, UrlError};
use midnight_node_updater::json::Json;
use midnight_node_updater::layout::{judge_plan, Layout, Verdict};
use midnight_node_updater::plan::{ChainStatus, PlanError, UpgradePlan};
use midnight_node_updater::state::State;
use midnight_node_updater::supervisor::{Preparation, PrepareError};

fn cfg() -> Config {
    Config::from_settings(Settings::look_up(|k| {
        if k == "DAEMON_HOME" {
            Some("/h".to_string())
        } else {
            None
        }
    }))
    .unwrap()
}

fn request<'a>(name: &'a str, urls: &'a [String]) -> AddUpgrade<'a> {
    AddUpgrade {
        name,
        exe: Some("/tmp/node"),
        height: Some(10),
        spec_version: None,
        immediate: false,
        urls,
        force: false,
    }
}

fn names(steps: Vec<InitStep>) -> Vec<String> {
    steps
        .into_iter()
        .map(|s| match s {
            InitStep::MakeDir(p) => format!("make {p}"),
            InitStep::Overwrites(p) => format!("overwrites {p}"),
            InitStep::Install(p) => format!("install {p}"),
            InitStep::PointToGenesis => "point".to_string(),
            InitStep::SaveState(p) => format!("save {p}"),
        })
        .collect()
}

#[test]
fn init_keeps_what_is_there() {
    let root = "/h/midnight-node-updater";
    assert_eq!(
        names(init(&cfg(), InitSeen { binary: false, link: false, state: false })),
        [
            format!("make {root}/upgrades"),
            format!("install {root}/genesis/bin/midnight-node"),
            "point".to_string(),
            format!("save {root}/state.json"),
        ]
    );
    assert_eq!(
        names(init(&cfg(), InitSeen { binary: true, link: true, state: true })),
        [
            format!("make {root}/upgrades"),
            format!("overwrites {root}/genesis/bin/midnight-node"),
            format!("install {root}/genesis/bin/midnight-node"),
        ]
    );
}

#[test]
fn upgrades_are_added() {
    let a = add_upgrade(&cfg(), &request(" Node-2.0 ", &[]), &State::default(), false, "p").unwrap();
    assert_eq!(a.plan.name, "node-2.0");
    assert_eq!((a.plan.height, a.plan.spec_version), (Some(10), None));
    assert!(a.plan.info.is_none());
    assert_eq!(a.binary, "/h/midnight-node-updater/upgrades/node-2.0/bin/midnight-node");
    assert_eq!(a.place.dir, "/h/midnight-node-updater/upgrades/node-2.0");
    assert_eq!(a.place.file, "/h/midnight-node-updater/upgrades/node-2.0/upgrade-info.json");
    assert!(!a.no_match);
    assert_eq!(judge_plan("node-2.0", &a.plan), Verdict::Kept);
}

#[test]
fn immediate_upgrades_are_due_at_once() {
    let mut req = request("v2", &[]);
    req.height = None;
    req.immediate = true;
    let p = plan_upgrade(&req, &State::default(), false).unwrap();
    assert_eq!(p.height, Some(0));
    assert!(p.is_triggered(&ChainStatus { height: 0, spec_version: 0 }));
    assert_eq!(p.describe_trigger(), "immediate");
}

#[test]
fn refused_upgrades_are_told() {
    let mut state = State::default();
    state.record_applied("v1", None, 0);
    let add = |req: &AddUpgrade, exists: bool| {
        add_upgrade(&cfg(), req, &state, exists, "p").unwrap_err()
    };
    assert!(matches!(add(&request("a/b", &[]), false), AddError::Name(PlanError::InvalidName)));
    assert!(matches!(add(&request("V1", &[]), true), AddError::Applied));
    assert!(matches!(add(&request("v2", &[]), true), AddError::Exists));
    let mut req = request("v2", &[]);
    req.immediate = true;
    assert!(matches!(add(&req, false), AddError::TwoTriggers));
    let mut req = request("v2", &[]);
    req.height = None;
    assert!(matches!(add(&req, false), AddError::NoTrigger));
    let mut req = request("v2", &[]);
    req.exe = None;
    assert!(matches!(add(&req, false), AddError::NoBinary));
    let urls = ["https://x/a".to_string(), "any=ftp://x/b".to_string(), "x".to_string()];
    assert!(matches!(add(&request("v2", &urls), false), AddError::Url(1, UrlError::Scheme)));
    let urls = ["p/q=https://x/a?checksum=1".to_string()];
    assert!(matches!(
        add(&request("v2", &urls), false),
        AddError::Url(0, UrlError::Checksum(ChecksumError::NoAlgorithm))
    ));
    let urls = ["p/q=https://".to_string()];
    assert!(matches!(add(&request("v2", &urls), false), AddError::Url(0, UrlError::Invalid(_))));
    let mut req = request("v2", &[]);
    req.force = true;
    assert!(add_upgrade(&cfg(), &req, &state, true, "p").is_ok());
}

#[test]
fn urls_are_split_by_platform() {
    let pair = |a: &str, b: &str| (a.to_string(), b.to_string());
    assert_eq!(split_url_entry("linux/amd64=https://x?a=b"), pair("linux/amd64", "https://x?a=b"));
    assert_eq!(split_url_entry("any=https://x"), pair("any", "https://x"));
    assert_eq!(split_url_entry("https://x?a=b"), pair("any", "https://x?a=b"));
    assert_eq!(split_url_entry("https://x"), pair("any", "https://x"));
    assert_eq!(split_url_entry("linux=https://x"), pair("any", "linux=https://x"));
}

#[test]
fn url_upgrades_carry_their_instructions() {
    let urls = [
        "linux/amd64=https://x/1".to_string(),
        "https://x/2".to_string(),
        "linux/amd64=https://x/3".to_string(),
    ];
    let mut req = request("v2", &urls);
    req.exe = None;
    let a = add_upgrade(&cfg(), &req, &State::default(), false, "linux/amd64").unwrap();
    let info = a.plan.info.unwrap();
    let binaries = info.get("binaries").unwrap();
    assert_eq!(binaries.get("linux/amd64").unwrap().as_str(), Some("https://x/3"));
    assert_eq!(binaries.get("any").unwrap().as_str(), Some("https://x/2"));
    assert!(!a.no_match);
    let urls = ["plan9/mips=https://x/1".to_string()];
    let mut req = request("v2", &urls);
    let a = add_upgrade(&cfg(), &req, &State::default(), false, "linux/amd64").unwrap();
    assert!(!a.no_match);
    req.exe = None;
    let a = add_upgrade(&cfg(), &req, &State::default(), false, "linux/amd64").unwrap();
    assert!(a.no_match);
}

fn plan(name: &str, height: Option<u64>, spec: Option<u32>, info: Option<Json>) -> UpgradePlan {
    UpgradePlan { name: name.into(), height, spec_version: spec, info }
}

#[test]
fn status_is_reported() {
    let c = cfg();
    let mut state = State::default();
    state.record_applied("v1", Some(ChainStatus { height: 3, spec_version: 2 }), 0);
    state.record_applied("v0", None, 0);
    let plans = vec![
        plan("v1", Some(3), None, None),
        plan("v2", Some(10), Some(4), Some(Json::Text("https://doc".to_string()))),
        plan("v3", None, Some(5), None),
    ];
    let seen = Seen {
        link: Some("upgrades/v1".to_string()),
        link_known: true,
        current_is_file: true,
        chain: Some(ChainStatus { height: 7, spec_version: 3 }),
    };
    let r = status(&c, &state, &plans, &vec![true, false, false], &seen, "p");
    assert_eq!(
        r.lines(&c, &state),
        [
            "home:     /h/midnight-node-updater",
            "current:  v1",
            "chain:    height 7 spec_version 3 (live, best block)",
            "upgrades:",
            "  v1                       applied  height >= 3                              binary ok",
            "  v2                       pending  height >= 10 or spec_version >= 4        binary downloadable",
            "  v3                       pending  spec_version >= 5                        BINARY MISSING",
        ]
    );
    let j = r.to_json(&state);
    assert_eq!(j.get("home").unwrap().as_str(), Some("/h/midnight-node-updater"));
    assert_eq!(j.get("current").unwrap().as_str(), Some("v1"));
    assert_eq!(
        j.get("current_binary").unwrap().as_str(),
        Some("/h/midnight-node-updater/upgrades/v1/bin/midnight-node")
    );
    assert_eq!(j.get("last_observed"), Some(&Json::Null));
    let chain = j.get("chain").unwrap();
    assert_eq!(chain.get("height"), Some(&Json::Number("7".to_string())));
    assert_eq!(chain.get("spec_version"), Some(&Json::Number("3".to_string())));
    match j.get("applied").unwrap() {
        Json::Array(a) => {
            assert_eq!(a.len(), 2);
            assert_eq!(a[0].get("name").unwrap().as_str(), Some("v1"));
            assert_eq!(a[0].get("applied_at").unwrap().as_str(), Some("1970-01-01T00:00:00Z"));
            assert_eq!(
                a[0].get("observed").unwrap().get("height"),
                Some(&Json::Number("3".to_string()))
            );
            assert_eq!(a[1].get("observed"), None);
        }
        other => panic!("{other:?}"),
    }
    match j.get("upgrades").unwrap() {
        Json::Array(u) => {
            assert_eq!(u.len(), 3);
            assert_eq!(u[0].get("status").unwrap().as_str(), Some("applied"));
            assert_eq!(u[1].get("status").unwrap().as_str(), Some("pending"));
            assert_eq!(u[1].get("downloadable"), Some(&Json::Bool(true)));
            assert_eq!(u[1].get("binary_present"), Some(&Json::Bool(false)));
            assert_eq!(u[1].get("height"), Some(&Json::Number("10".to_string())));
            assert_eq!(u[2].get("height"), Some(&Json::Null));
            assert_eq!(u[2].get("spec_version"), Some(&Json::Number("5".to_string())));
            assert_eq!(u[2].get("trigger").unwrap().as_str(), Some("spec_version >= 5"));
            assert_eq!(
                u[2].get("binary").unwrap().as_str(),
                Some("/h/midnight-node-updater/upgrades/v3/bin/midnight-node")
            );
        }
        other => panic!("{other:?}"),
    }
}

#[test]
fn status_without_a_node() {
    let c = cfg();
    let mut state = State::default();
    let seen = Seen { link: None, link_known: false, current_is_file: false, chain: None };
    let r = status(&c, &state, &vec![], &vec![], &seen, "p");
    assert_eq!(
        r.lines(&c, &state),
        [
            "home:     /h/midnight-node-updater",
            "current:  ?",
            "chain:    unknown (RPC http://127.0.0.1:9944 unreachable)",
            "upgrades: none registered",
        ]
    );
    assert_eq!(r.to_json(&state).get("current"), Some(&Json::Null));
    assert_eq!(r.to_json(&state).get("current_binary"), Some(&Json::Null));
    assert_eq!(r.to_json(&state).get("chain"), Some(&Json::Null));
    state.observe(ChainStatus { height: 42, spec_version: 5 }, 1_767_225_600);
    assert_eq!(
        r.lines(&c, &state)[2],
        "chain:    height 42 spec_version 5 (last observed 2026-01-01T00:00:00Z; RPC http://127.0.0.1:9944 unreachable)"
    );
    let j = r.to_json(&state);
    let o = j.get("last_observed").unwrap();
    assert_eq!(o.get("height"), Some(&Json::Number("42".to_string())));
    assert_eq!(o.get("observed_at").unwrap().as_str(), Some("2026-01-01T00:00:00Z"));
}

#[test]
fn finalities_have_names() {
    let mut c = cfg();
    assert_eq!(finality_name(&c), "best");
    c.finality = Finality::Finalized;
    assert_eq!(finality_name(&c), "finalized");
}

#[test]
fn prepare_upgrade_may_always_download() {
    let c = cfg();
    assert!(!c.allow_download);
    let l = Layout::new("/h", "midnight-node");
    let bin = "/h/midnight-node-updater/upgrades/v2/bin/midnight-node";
    let p = plan("v2", Some(1), None, Some(Json::Text("https://doc".to_string())));
    assert!(matches!(
        prepare_pending(&c, &l, &p, false),
        Ok(Preparation::Download { bin: b, must_have_checksum: true }) if b == bin
    ));
    assert!(matches!(prepare_pending(&c, &l, &p, true), Ok(Preparation::Check(b)) if b == bin));
    let p = plan("v2", Some(1), None, None);
    assert!(matches!(prepare_pending(&c, &l, &p, false), Err(PrepareError::NoInfo(b)) if b == bin));
}

#[test]
fn pending_upgrades_are_prepared() {
    let mut state = State::default();
    state.record_applied("v2", None, 0);
    let plans = vec![
        plan("v1", Some(1), None, None),
        plan("v2", Some(2), None, None),
        plan("v3", Some(3), None, None),
    ];
    let pending: Vec<String> = prepare_upgrade(&state, plans).into_iter().map(|p| p.name).collect();
    assert_eq!(pending, ["v1", "v3"]);
    assert_eq!(readiness(&vec![]), Ok(()));
    assert_eq!(readiness(&vec![true, true]), Ok(()));
    assert_eq!(readiness(&vec![true, false, false]), Err(NotReady { failed: 2, total: 3 }));
}
