use midnight_node_updater::backup::{backup_data_dir, copy_dir, BackupError, CopyStep, Entry, EntryKind};
use midnight_node_updater::layout::{
    install_executable, is_executable, judge_plan, InstallError, Layout, PlanEntry, Verdict,
};
use midnight_node_updater::path;
use midnight_node_updater::plan::{ChainStatus, PlanError, UpgradePlan};
use midnight_node_updater::state::State;
use midnight_node_updater::text;
use midnight_node_updater::time::timestamp;

fn plan(name: &str, height: Option<u64>) -> UpgradePlan {
    UpgradePlan { name: name.into(), height, spec_version: None, info: None }
}

fn entry(dir: &str, name: &str, height: Option<u64>) -> PlanEntry {
    PlanEntry { dir_name: dir.to_string(), plan: plan(name, height) }
}

#[test]
fn places_of_an_installation() {
    let l = Layout::new("/srv/midnight", "midnight-node");
    assert_eq!(l.root(), "/srv/midnight/midnight-node-updater");
    assert_eq!(l.daemon_name(), "midnight-node");
    assert_eq!(l.genesis_dir(), "/srv/midnight/midnight-node-updater/genesis");
    assert_eq!(l.upgrades_dir(), "/srv/midnight/midnight-node-updater/upgrades");
    assert_eq!(l.upgrade_dir("v2"), "/srv/midnight/midnight-node-updater/upgrades/v2");
    assert_eq!(
        l.plan_file("v2"),
        "/srv/midnight/midnight-node-updater/upgrades/v2/upgrade-info.json"
    );
    assert_ne!(l.upgrade_dir("v2"), l.upgrade_dir("v3"));
    assert_eq!(path::parent(&l.upgrade_dir("v2")), Some(l.upgrades_dir()));
    assert_eq!(l.current_link(), "/srv/midnight/midnight-node-updater/current");
    assert_eq!(l.state_file(), "/srv/midnight/midnight-node-updater/state.json");
    assert_eq!(l.bin_path("/x"), "/x/bin/midnight-node");
    assert_eq!(
        l.upgrade_bin("v2"),
        "/srv/midnight/midnight-node-updater/upgrades/v2/bin/midnight-node"
    );
}

#[test]
fn switches_are_read_back() {
    let l = Layout::new("/h", "n");
    let err = l.set_current(Some("v2"), false).unwrap_err();
    assert_eq!(err.path, "/h/midnight-node-updater/upgrades/v2");
    let s = l.set_current(Some("v2"), true).unwrap();
    assert_eq!(s.target, "upgrades/v2");
    assert_eq!(s.scratch, "/h/midnight-node-updater/.current.tmp");
    assert_eq!(s.link, "/h/midnight-node-updater/current");
    assert_eq!(l.current_name(Some(&s.target)), "v2");
    assert_eq!(l.current_dir(Some(&s.target)), l.upgrade_dir("v2"));
    let s = l.set_current(None, true).unwrap();
    assert_eq!(s.target, "genesis");
    assert_eq!(l.current_name(Some(&s.target)), "genesis");
    assert_eq!(l.current_name(None), "genesis");
    assert_eq!(l.current_dir(None), l.genesis_dir());
    assert_eq!(l.current_dir(Some("/elsewhere/v9")), "/elsewhere/v9");
    assert_eq!(l.current_name(Some("/elsewhere/v9/")), "v9");
    assert_eq!(l.current_name(Some("/")), "");
}

#[test]
fn missing_binary_is_told() {
    let l = Layout::new("/h", "n");
    assert_eq!(
        l.current_bin(None, true).unwrap(),
        "/h/midnight-node-updater/genesis/bin/n"
    );
    assert_eq!(
        l.current_bin(Some("upgrades/v2"), false).unwrap_err().path,
        "/h/midnight-node-updater/upgrades/v2/bin/n"
    );
}

#[test]
fn broken_plans_are_left_out() {
    let l = Layout::new("/h", "n");
    let plans = l.load_plans(vec![
        entry("v3", "v3", Some(3)),
        entry("elsewhere", "v1", Some(1)),
        entry("v10", "v10", Some(10)),
        entry("bad", "bad", None),
        entry("v2", "v2", Some(2)),
        entry("V4", "V4", Some(4)),
    ]);
    let names: Vec<&str> = plans.iter().map(|p| p.name.as_str()).collect();
    assert_eq!(names, ["v10", "v2", "v3"]);
    assert_eq!(judge_plan("v3", &plan("v3", Some(1))), Verdict::Kept);
    assert_eq!(judge_plan("x", &plan("v3", Some(1))), Verdict::Misplaced);
    assert_eq!(judge_plan("x", &plan("v3", None)), Verdict::Invalid(PlanError::NoTrigger));
    assert_eq!(judge_plan("..", &plan("..", Some(1))), Verdict::Invalid(PlanError::InvalidName));
}

#[test]
fn saved_plans_are_loaded() {
    let l = Layout::new("/h", "n");
    let load = |entries: Vec<PlanEntry>| -> Vec<(String, Option<u64>)> {
        l.load_plans(entries).into_iter().map(|p| (p.name, p.height)).collect()
    };
    let before = load(vec![entry("v3", "v3", Some(3)), entry("v1", "v1", Some(1))]);
    assert_eq!(before, [("v1".to_string(), Some(1)), ("v3".to_string(), Some(3))]);
    assert!(l.save_plan(&plan("v2", Some(2))).unwrap().file.ends_with("/upgrades/v2/upgrade-info.json"));
    let after =
        load(vec![entry("v2", "v2", Some(2)), entry("v3", "v3", Some(3)), entry("v1", "v1", Some(1))]);
    assert_eq!(
        after,
        [("v1".to_string(), Some(1)), ("v2".to_string(), Some(2)), ("v3".to_string(), Some(3))]
    );
    let after = load(vec![entry("v1", "v1", Some(9)), entry("v3", "v3", Some(3))]);
    assert_eq!(after, [("v1".to_string(), Some(9)), ("v3".to_string(), Some(3))]);
}

#[test]
fn valid_plans_are_saved_in_their_directory() {
    let l = Layout::new("/h", "n");
    let place = l.save_plan(&plan("v2", Some(10))).unwrap();
    assert_eq!(place.dir, "/h/midnight-node-updater/upgrades/v2");
    assert_eq!(place.file, "/h/midnight-node-updater/upgrades/v2/upgrade-info.json");
    assert_eq!(l.save_plan(&plan("v2", None)).unwrap_err(), PlanError::NoTrigger);
    assert_eq!(l.save_plan(&plan("a/b", Some(1))).unwrap_err(), PlanError::InvalidName);
}

#[test]
fn binaries_are_installed_beside_their_place() {
    let i = install_executable(true, "/h/bin/node").unwrap();
    assert_eq!(i.dir, "/h/bin");
    assert_eq!(i.scratch, "/h/bin/.node.tmp");
    let i = install_executable(true, "node").unwrap();
    assert_eq!((i.dir.as_str(), i.scratch.as_str()), ("", ".node.tmp"));
    assert_eq!(install_executable(false, "/h/bin/node").unwrap_err(), InstallError::NotAFile);
    assert_eq!(install_executable(true, "/").unwrap_err(), InstallError::NoParent);
    assert_eq!(install_executable(true, "").unwrap_err(), InstallError::NoParent);
}

#[test]
fn executables_are_files_that_anyone_may_run() {
    assert!(is_executable(true, 0o755));
    assert!(is_executable(true, 0o001));
    assert!(!is_executable(true, 0o644));
    assert!(!is_executable(false, 0o755));
}

#[test]
fn parents_drop_the_last_component() {
    assert_eq!(path::parent("/a/b"), Some("/a".to_string()));
    assert_eq!(path::parent("/a"), Some("/".to_string()));
    assert_eq!(path::parent("/"), None);
    assert_eq!(path::parent(""), None);
    assert_eq!(path::parent("a"), Some(String::new()));
    assert_eq!(path::parent("a//b/./c/"), Some("a/b".to_string()));
    assert_eq!(path::parent("./a"), Some(".".to_string()));
}

#[test]
fn paths_agree_with_std() {
    for p in ["", "/", ".", "..", "a", "/a", "a/b", "/a//b/", "./a", "a/./b", "a/..", "//", "a/.", "/.."] {
        let std_path = std::path::Path::new(p);
        let want: Vec<String> =
            std_path.components().map(|c| c.as_os_str().to_str().unwrap().to_string()).collect();
        assert_eq!(path::split(p), want, "{p:?}");
        assert_eq!(
            path::file_name(p),
            std_path.file_name().map(|n| n.to_str().unwrap().to_string()),
            "{p:?}"
        );
        assert_eq!(path::is_absolute(p), std_path.is_absolute(), "{p:?}");
        assert_eq!(
            path::parent(p).is_some(),
            std_path.parent().is_some(),
            "{p:?}"
        );
        for q in ["", "/", "x", "/x/y", "./x", "x/"] {
            assert_eq!(path::join(p, q), std_path.join(q).to_str().unwrap(), "{p:?} {q:?}");
            assert_eq!(path::starts_with(p, q), std_path.starts_with(q), "{p:?} {q:?}");
            assert_eq!(path::starts_with(q, p), std::path::Path::new(q).starts_with(p), "{p:?} {q:?}");
        }
    }
}

#[test]
fn backups_get_their_place() {
    let now = 1_767_225_600;
    assert_eq!(timestamp(now), "2026-01-01T00:00:00Z");
    assert_eq!(
        backup_data_dir("/data", true, "/backups", "v2", now).unwrap(),
        "/backups/data-backup-2026-01-01T000000Z-v2"
    );
    assert!(matches!(
        backup_data_dir("/data", false, "/backups", "v2", now),
        Err(BackupError::NoData)
    ));
    let e = backup_data_dir("/data", true, "/data/bk", "v2", now).unwrap_err();
    assert!(
        matches!(e, BackupError::Inside(p) if p == "/data/bk/data-backup-2026-01-01T000000Z-v2")
    );
    assert!(backup_data_dir("/data", true, "/data2", "v2", now).is_ok());
}

#[test]
fn directories_are_copied_permissions_last() {
    let entries = vec![
        Entry { name: "db".to_string(), kind: EntryKind::Dir },
        Entry { name: "link".to_string(), kind: EntryKind::Link },
        Entry { name: "file".to_string(), kind: EntryKind::Other },
    ];
    let steps = copy_dir(&entries, "/data", "/copy");
    let texts: Vec<String> = steps
        .iter()
        .map(|s| match s {
            CopyStep::Make(p) => format!("make {p}"),
            CopyStep::Dir(a, b) => format!("dir {a} {b}"),
            CopyStep::Link(a, b) => format!("link {a} {b}"),
            CopyStep::File(a, b) => format!("file {a} {b}"),
            CopyStep::Permissions(a, b) => format!("permissions {a} {b}"),
        })
        .collect();
    assert_eq!(
        texts,
        [
            "make /copy",
            "dir /data/db /copy/db",
            "link /data/link /copy/link",
            "file /data/file /copy/file",
            "permissions /data /copy",
        ]
    );
}

#[test]
fn state_keeps_its_records() {
    let mut s = State::default();
    assert!(s.applied.is_empty());
    assert!(s.last_observed.is_none());
    s.observe(ChainStatus { height: 5, spec_version: 9 }, 1_767_225_600);
    s.record_applied("v2", Some(ChainStatus { height: 5, spec_version: 9 }), 1_767_225_661);
    s.record_applied("v3", None, 0);
    assert_eq!(s.applied_names(), ["v2", "v3"]);
    assert_eq!(s.applied[0].applied_at, "2026-01-01T00:01:01Z");
    assert_eq!(s.applied[0].observed, Some(ChainStatus { height: 5, spec_version: 9 }));
    assert_eq!(s.applied[1].applied_at, "1970-01-01T00:00:00Z");
    assert_eq!(s.applied[1].observed, None);
    let o = s.last_observed.unwrap();
    assert_eq!(o.status.height, 5);
    assert_eq!(o.observed_at, "2026-01-01T00:00:00Z");
}

#[test]
fn timestamps_follow_the_calendar() {
    assert_eq!(timestamp(951_782_400), "2000-02-29T00:00:00Z");
    assert_eq!(timestamp(4_107_542_400), "2100-03-01T00:00:00Z");
    assert_eq!(timestamp(1_709_251_199), "2024-02-29T23:59:59Z");
    assert_eq!(timestamp(253_402_300_799), "9999-12-31T23:59:59Z");
}

#[test]
fn texts_agree_with_std() {
    for s in ["", "a", "a&b", "&", "&&x&", "A\u{e9}Z", "  x\u{a0}\u{2003} ", "\u{200b}x", "=", "k=v=w"] {
        assert_eq!(text::to_lower(s), s.to_ascii_lowercase());
        assert_eq!(text::to_upper(s), s.to_ascii_uppercase());
        assert_eq!(text::trim(s), s.trim());
        let parts = text::split(s, '&');
        assert_eq!(parts, s.split('&').collect::<Vec<_>>());
        assert_eq!(text::join(&parts, '&'), s);
        assert_eq!(
            text::split_once(s, '='),
            s.split_once('=').map(|(a, b)| (a.to_string(), b.to_string()))
        );
        assert_eq!(text::strip_prefix(s, "a"), s.strip_prefix("a").map(|t| t.to_string()));
        assert_eq!(text::has_char(s, '&'), s.contains('&'));
        assert_eq!(text::pad(s, 4), format!("{s:<4}"));
        for t in ["", "a", "a&", "b", "\u{e9}"] {
            assert_eq!(text::in_order(s, t), s <= t);
            assert_eq!(text::same(s, t), s == t);
        }
    }
    for n in [0, 9, 10, 1_000_000, u64::MAX] {
        assert_eq!(text::decimal_text(n), n.to_string());
    }
}
