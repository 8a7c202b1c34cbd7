use std::collections::HashMap;

use midnight_node_updater::config::{
    base_path_from_args, boolean, describe_duration, read_config_file, Config, ConfigError, Finality, LoadError,
    Scalar, Setting, Settings, Spans, DEFAULT_RPC_URL, DEFAULT_SHUTDOWN_GRACE, ENV_ALLOW_DOWNLOAD,
    ENV_DISABLE_LOGS, ENV_HOME, ENV_MUST_HAVE_CHECKSUM, ENV_NAME, ENV_POLL_INTERVAL,
    ENV_PREUPGRADE_SCRIPT, ENV_RESTART_AFTER_UPGRADE, ENV_RESTART_DELAY, ENV_SHUTDOWN_GRACE,
    ENV_SKIP_BACKUP, ENV_UPGRADE_FINALITY,
};
use midnight_node_updater::time::Duration;

fn cfg(pairs: &[(&str, &str)]) -> Result<Config, ConfigError> {
    let map: HashMap<String, String> =
        pairs.iter().map(|(k, v)| (k.to_string(), v.to_string())).collect();
    Config::from_lookup(|k| map.get(k).cloned())
}

fn settings(pairs: &[(&str, &str)]) -> Settings {
    let map: HashMap<String, String> =
        pairs.iter().map(|(k, v)| (k.to_string(), v.to_string())).collect();
    Settings::look_up(|k| map.get(k).cloned())
}

fn strings(v: &[&str]) -> Vec<String> {
    v.iter().map(|s| s.to_string()).collect::<Vec<_>>()
}

#[test]
fn defaults() {
    let c = cfg(&[(ENV_HOME, "/srv/midnight")]).unwrap();
    assert_eq!(c.name, "midnight-node");
    assert_eq!(c.rpc_url, DEFAULT_RPC_URL);
    assert_eq!(c.finality, Finality::Best);
    assert!(!c.allow_download);
    assert!(c.download_must_have_checksum);
    assert!(c.restart_after_upgrade);
    assert!(!c.unsafe_skip_backup);
    assert_eq!(c.shutdown_grace, Duration::from_secs(DEFAULT_SHUTDOWN_GRACE));
}

#[test]
fn requires_absolute_home() {
    assert!(cfg(&[]).is_err());
    assert!(cfg(&[(ENV_HOME, "relative")]).is_err());
}

#[test]
fn parses_values() {
    let c = cfg(&[
        (ENV_HOME, "/h"),
        (ENV_POLL_INTERVAL, "300ms"),
        (ENV_UPGRADE_FINALITY, "Finalized"),
        (ENV_SKIP_BACKUP, "true"),
        (ENV_PREUPGRADE_SCRIPT, "pre.sh"),
    ])
    .unwrap();
    assert_eq!(c.poll_interval, Duration::from_millis(300));
    assert_eq!(c.finality, Finality::Finalized);
    assert!(c.unsafe_skip_backup);
    assert_eq!(c.preupgrade_script, Some("pre.sh".to_string()));
    assert!(cfg(&[(ENV_HOME, "/h"), (ENV_SKIP_BACKUP, "maybe")]).is_err());
}

#[test]
fn base_path_parsing() {
    let a = |v: &[&str]| v.iter().map(|s| s.to_string()).collect::<Vec<_>>();
    assert_eq!(base_path_from_args(&a(&["--base-path", "/d"])), Some("/d".into()));
    assert_eq!(base_path_from_args(&a(&["--validator", "--base-path=/x"])), Some("/x".into()));
    assert_eq!(base_path_from_args(&a(&["-d", "node/chain"])), Some("node/chain".into()));
    assert_eq!(base_path_from_args(&a(&["--chain", "mainnet"])), None);
}

#[test]
fn base_path_stops_at_separator_and_end() {
    assert_eq!(base_path_from_args(&strings(&["--", "--base-path", "/d"])), None);
    assert_eq!(base_path_from_args(&strings(&["--base-path"])), None);
    assert_eq!(base_path_from_args(&strings(&["--base-path="])), Some(String::new()));
    assert_eq!(
        base_path_from_args(&strings(&["-d", "/a", "--base-path=/b"])),
        Some("/a".to_string())
    );
    assert_eq!(base_path_from_args(&[]), None);
}

#[test]
fn each_fault_is_told() {
    assert_eq!(cfg(&[]).unwrap_err(), ConfigError::HomeNotSet);
    assert_eq!(cfg(&[(ENV_HOME, "relative")]).unwrap_err(), ConfigError::HomeNotAbsolute);
    assert_eq!(cfg(&[(ENV_HOME, "")]).unwrap_err(), ConfigError::HomeNotAbsolute);
    assert_eq!(cfg(&[(ENV_HOME, "/h"), (ENV_NAME, "")]).unwrap_err(), ConfigError::BadName);
    assert_eq!(cfg(&[(ENV_HOME, "/h"), (ENV_NAME, "a/b")]).unwrap_err(), ConfigError::BadName);
    assert_eq!(
        cfg(&[(ENV_HOME, "/h"), (ENV_UPGRADE_FINALITY, "fast")]).unwrap_err(),
        ConfigError::BadFinality
    );
    assert_eq!(
        cfg(&[(ENV_HOME, "/h"), (ENV_POLL_INTERVAL, "soon")]).unwrap_err(),
        ConfigError::BadDuration(Setting::PollInterval)
    );
    assert_eq!(
        cfg(&[(ENV_HOME, "/h"), (ENV_RESTART_DELAY, "5")]).unwrap_err(),
        ConfigError::BadDuration(Setting::RestartDelay)
    );
    assert_eq!(
        cfg(&[(ENV_HOME, "/h"), (ENV_SHUTDOWN_GRACE, "")]).unwrap_err(),
        ConfigError::BadDuration(Setting::ShutdownGrace)
    );
    assert_eq!(
        cfg(&[(ENV_HOME, "/h"), (ENV_POLL_INTERVAL, "0s")]).unwrap_err(),
        ConfigError::ZeroPollInterval
    );
    for (key, setting) in [
        (ENV_ALLOW_DOWNLOAD, Setting::AllowDownload),
        (ENV_MUST_HAVE_CHECKSUM, Setting::MustHaveChecksum),
        (ENV_RESTART_AFTER_UPGRADE, Setting::RestartAfterUpgrade),
        (ENV_SKIP_BACKUP, Setting::SkipBackup),
        (ENV_DISABLE_LOGS, Setting::DisableLogs),
    ] {
        assert_eq!(
            cfg(&[(ENV_HOME, "/h"), (key, "2")]).unwrap_err(),
            ConfigError::BadBoolean(setting)
        );
    }
}

#[test]
fn faults_come_in_order() {
    assert_eq!(
        cfg(&[(ENV_HOME, "/h"), (ENV_POLL_INTERVAL, "0s"), (ENV_DISABLE_LOGS, "x")]).unwrap_err(),
        ConfigError::BadBoolean(Setting::DisableLogs)
    );
    assert_eq!(
        cfg(&[(ENV_HOME, "/h"), (ENV_NAME, "/"), (ENV_UPGRADE_FINALITY, "x")]).unwrap_err(),
        ConfigError::BadName
    );
}

#[test]
fn durations_are_read() {
    let poll = |v: &str| cfg(&[(ENV_HOME, "/h"), (ENV_POLL_INTERVAL, v)]).map(|c| c.poll_interval);
    assert_eq!(poll("2min 5s"), Ok(Duration { secs: 125, nanos: 0 }));
    assert_eq!(poll("1.5s"), Ok(Duration { secs: 1, nanos: 500_000_000 }));
    assert_eq!(poll("300 ms"), Ok(Duration { secs: 0, nanos: 300_000_000 }));
    assert_eq!(poll("1000ms"), Ok(Duration { secs: 1, nanos: 0 }));
    assert_eq!(poll("1000000000000000ns"), Ok(Duration { secs: 1_000_000, nanos: 0 }));
    assert_eq!(poll("18446744073709551615s"), Ok(Duration { secs: u64::MAX, nanos: 0 }));
    assert_eq!(
        poll("18446744073709551615s1000ms"),
        Err(ConfigError::BadDuration(Setting::PollInterval))
    );
    assert_eq!(
        poll("18446744073709551615s 999999999ns"),
        Ok(Duration { secs: u64::MAX, nanos: 999_999_999 })
    );
    assert_eq!(
        poll("18446744073709551616s"),
        Err(ConfigError::BadDuration(Setting::PollInterval))
    );
}

#[test]
fn long_durations_are_read() {
    let poll = |v: &str| cfg(&[(ENV_HOME, "/h"), (ENV_POLL_INTERVAL, v)]).map(|c| c.poll_interval);
    assert_eq!(
        poll("99years 11months 30days 23h 59m 59s 5ms"),
        Ok(Duration { secs: 99 * 31_557_600 + 11 * 2_630_016 + 31 * 86_400 - 1, nanos: 5_000_000 })
    );
    assert_eq!(poll("9999999999s 999ms"), Ok(Duration { secs: 9_999_999_999, nanos: 999_000_000 }));
    assert_eq!(
        poll("10000000000s 999ms"),
        Ok(Duration { secs: 10_000_000_000, nanos: 999_000_000 })
    );
    assert_eq!(poll("00000000005s 1ms"), Ok(Duration { secs: 5, nanos: 1_000_000 }));
    assert_eq!(poll("10.123456789s"), Ok(Duration { secs: 10, nanos: 123_456_789 }));
    assert_eq!(poll("60.000000000s"), Ok(Duration::from_secs(60)));
    assert_eq!(poll(&format!("300ms{}", " ".repeat(100))), Ok(Duration::from_millis(300)));
    assert_eq!(
        poll(&format!("{}1.5s", " ".repeat(100))),
        Ok(Duration { secs: 1, nanos: 500_000_000 })
    );
    assert_eq!(poll(&format!("{}1s 1ms", "0".repeat(200))), Ok(Duration { secs: 1, nanos: 1_000_000 }));
    assert_eq!(
        poll("584542046090years 7months 15days 17h 5m 3s 999ms 999us 999ns"),
        Ok(Duration {
            secs: 584_542_046_090 * 31_557_600 + 7 * 2_630_016 + 15 * 86_400 + 17 * 3_600 + 303,
            nanos: 999_999_999
        })
    );
    assert_eq!(poll("1.5h"), Ok(Duration::from_secs(5400)));
    assert_eq!(poll("0.25min 1w 1M"), Ok(Duration::from_secs(15 + 604_800 + 2_630_016)));
    assert_eq!(poll("1.00000000000000000000s"), Err(ConfigError::BadDuration(Setting::PollInterval)));
    assert_eq!(
        poll(&format!("{}s", "9".repeat(60))),
        Err(ConfigError::BadDuration(Setting::PollInterval))
    );
}

#[test]
fn durations_agree_with_humantime() {
    let delay = |v: &str| cfg(&[(ENV_HOME, "/h"), (ENV_RESTART_DELAY, v)]).ok().map(|c| c.restart_delay);
    for v in [
        "0", "0s", "5", "1s", "1 s", "1 0s", "1.s", ".5s", "1.5", "1s2", "1s 2m3h", "1.5ns", "1.5us",
        "2\u{b5}s", "3msec", "3millis", "3min", "3minutes", "3mins", "2months", "2M", "2mo", "1yr",
        "1years", "2wks", "1day 2hrs", "1S", "1x", "-1s", "1,5s", "1.2.3s", "1\u{2003}s",
        "18446744073709551615.5s", "18446744073709551614.9999999999s", "213503982334601days 7h 16s",
        "18446744073709551616ns", "18446744073709551615ms", "99999999999999999999999ns", "0.1ns",
        "0.0000000001s", "1m s", "1hour 12min 5s", "  ", "", "1e3s",
    ] {
        let want = humantime::parse_duration(v)
            .ok()
            .map(|d| Duration { secs: d.as_secs(), nanos: d.subsec_nanos() });
        assert_eq!(delay(v), want, "{v:?}");
    }
}

#[test]
fn configs_are_made_of_parsed_spans() {
    let spans = Spans {
        poll: Some(Duration::from_millis(1)),
        delay: Some(Duration::from_secs(2)),
        grace: Some(Duration::from_secs(3)),
    };
    let c = Config::from_spans(settings(&[(ENV_HOME, "/h")]), spans).unwrap();
    assert_eq!(c.poll_interval, Duration::from_millis(1));
    assert_eq!(c.restart_delay, Duration::from_secs(2));
    assert_eq!(c.shutdown_grace, Duration::from_secs(3));
    let err = |spans: Spans| Config::from_spans(settings(&[(ENV_HOME, "/h")]), spans).unwrap_err();
    assert_eq!(
        err(Spans { poll: Some(Duration::from_secs(0)), ..spans }),
        ConfigError::ZeroPollInterval
    );
    assert_eq!(
        err(Spans { poll: None, delay: None, ..spans }),
        ConfigError::BadDuration(Setting::PollInterval)
    );
    assert_eq!(
        err(Spans { poll: Some(Duration::from_secs(0)), grace: None, ..spans }),
        ConfigError::BadDuration(Setting::ShutdownGrace)
    );
    assert_eq!(err(Spans { delay: None, ..spans }), ConfigError::BadDuration(Setting::RestartDelay));
}

#[test]
fn described_durations_are_read_back() {
    for d in [
        Duration::from_secs(0),
        Duration::from_secs(9420),
        Duration::from_millis(32),
        Duration { secs: 3_000_000_000, nanos: 123_456_789 },
        Duration { secs: u64::MAX, nanos: 0 },
        Duration { secs: u64::MAX, nanos: 999_999_999 },
    ] {
        let c = cfg(&[(ENV_HOME, "/h"), (ENV_RESTART_DELAY, &describe_duration(d))]).unwrap();
        assert_eq!(c.restart_delay, d);
    }
    assert_eq!(describe_duration(Duration::from_secs(9420)), "2h 37m");
    assert_eq!(describe_duration(Duration::from_millis(32)), "32ms");
}

#[test]
fn booleans_are_read() {
    for v in ["1", "true", "YES", "On"] {
        assert_eq!(boolean(&Some(v.to_string()), Setting::SkipBackup, false), Ok(true));
    }
    for v in ["0", "False", "no", "OFF"] {
        assert_eq!(boolean(&Some(v.to_string()), Setting::SkipBackup, true), Ok(false));
    }
    assert_eq!(boolean(&None, Setting::SkipBackup, true), Ok(true));
    assert_eq!(boolean(&None, Setting::SkipBackup, false), Ok(false));
    assert_eq!(
        boolean(&Some(String::new()), Setting::SkipBackup, true),
        Err(ConfigError::BadBoolean(Setting::SkipBackup))
    );
}

#[test]
fn environment_overrides_file() {
    let file = "DAEMON_HOME = \"/file\"\ndaemon_name = \"from-file\"\nDAEMON_POLL_INTERVAL = \"7s\"\n";
    let c = Config::load(settings(&[(ENV_HOME, "/env"), (ENV_POLL_INTERVAL, "")]), Some(file))
        .unwrap();
    assert_eq!(c.home, "/env");
    assert_eq!(c.name, "from-file");
    assert_eq!(c.poll_interval, Duration::from_secs(7));
    let c = Config::load(settings(&[(ENV_HOME, "/env")]), None).unwrap();
    assert_eq!(c.name, "midnight-node");
}

#[test]
fn file_values_become_texts() {
    let file = "DAEMON_HOME = \"/h\"\nUNSAFE_SKIP_BACKUP = true\nDAEMON_ALLOW_DOWNLOAD_BINARIES = 1\nDAEMON_RESTART_AFTER_UPGRADE = false\n";
    let c = Config::load(settings(&[]), Some(file)).unwrap();
    assert!(c.unsafe_skip_backup);
    assert!(c.allow_download);
    assert!(!c.restart_after_upgrade);
    let e = Config::load(settings(&[]), Some("DAEMON_HOME = -5")).unwrap_err();
    assert!(matches!(e, LoadError::Invalid(ConfigError::HomeNotAbsolute)));
    let e = Config::load(settings(&[]), Some("DAEMON_HOME = \"/h\"\nDAEMON_NAME = \"\"")).unwrap_err();
    assert!(matches!(e, LoadError::Invalid(ConfigError::BadName)));
}

#[test]
fn file_faults_are_told() {
    let e = Config::load(settings(&[(ENV_HOME, "/h")]), Some("not toml")).unwrap_err();
    assert!(matches!(e, LoadError::Syntax(_)));
    let e = Config::load(settings(&[]), Some("DAEMON_HOME = \"/h\"\nother = [1]")).unwrap_err();
    assert!(matches!(e, LoadError::Unsupported(k) if k == "other"));
    assert!(matches!(read_config_file("x = 1 2"), Err(LoadError::Syntax(_))));
}

#[test]
fn only_texts_integers_and_booleans_are_supported() {
    for value in ["1.5", "1979-05-27", "[]", "{ a = 1 }"] {
        let entries = read_config_file(&format!("key = {value}")).unwrap();
        assert!(matches!(&entries[0], (k, Scalar::Other) if k == "key"), "{value}");
    }
    let entries = read_config_file("a = \"t\"\nb = -3\nc = true").unwrap();
    assert!(matches!(&entries[0].1, Scalar::Text(t) if t == "t"));
    assert!(matches!(entries[1].1, Scalar::Integer(-3)));
    assert!(matches!(entries[2].1, Scalar::Boolean(true)));
}

#[test]
fn settings_are_layered() {
    let entries = read_config_file("daemon_home = \"/f\"\nDAEMON_NAME = \"n\"").unwrap();
    let s = settings(&[(ENV_HOME, "/e"), ("DAEMON_NAME", "")]).over(&entries);
    assert_eq!(s.home.as_deref(), Some("/e"));
    assert_eq!(s.name.as_deref(), Some("n"));
    assert_eq!(settings(&[]).over(&entries).home.as_deref(), Some("/f"));
    assert_eq!(s.rpc_url, None);
}

#[test]
fn last_of_two_spellings_counts() {
    let entries = vec![
        ("DAEMON_HOME".to_string(), Scalar::Text("/a".to_string())),
        ("daemon_home".to_string(), Scalar::Text("/b".to_string())),
    ];
    let c = Config::load_over(settings(&[]), &entries).unwrap();
    assert_eq!(c.home, "/b");
    let entries = vec![
        ("DAEMON_HOME".to_string(), Scalar::Integer(-7)),
        ("x".to_string(), Scalar::Other),
        ("y".to_string(), Scalar::Boolean(true)),
    ];
    let e = Config::load_over(settings(&[]), &entries).unwrap_err();
    assert!(matches!(e, LoadError::Unsupported(k) if k == "x"));
}

#[test]
fn data_dir_is_resolved_in_order() {
    let mut c = cfg(&[(ENV_HOME, "/h"), ("DAEMON_DATA_DIR", "/data")]).unwrap();
    let args = strings(&["--base-path", "/args"]);
    assert_eq!(c.resolve_data_dir(&args, Some("/env".to_string())), Some("/data".to_string()));
    c.data_dir = None;
    assert_eq!(c.resolve_data_dir(&args, Some("/env".to_string())), Some("/args".to_string()));
    assert_eq!(c.resolve_data_dir(&[], Some("/env".to_string())), Some("/env".to_string()));
    assert_eq!(c.resolve_data_dir(&[], Some(String::new())), None);
    assert_eq!(c.resolve_data_dir(&[], None), None);
}
