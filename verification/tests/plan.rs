use midnight_node_updater::json::Json;
use midnight_node_updater::plan::{
    contains_name, next_triggered, normalize_name, validate_name, ChainStatus, PlanError,
    UpgradePlan,
};

fn plan(name: &str, height: Option<u64>, spec: Option<u32>) -> UpgradePlan {
    UpgradePlan { name: name.into(), height, spec_version: spec, info: None }
}

#[test]
fn triggers() {
    let s = ChainStatus { height: 100, spec_version: 1_000_000 };
    assert!(plan("a", Some(100), None).is_triggered(&s));
    assert!(!plan("a", Some(101), None).is_triggered(&s));
    assert!(plan("a", None, Some(1_000_000)).is_triggered(&s));
    assert!(!plan("a", None, Some(1_000_001)).is_triggered(&s));
    assert!(plan("a", Some(500), Some(999)).is_triggered(&s));
    assert!(plan("a", Some(0), None).is_triggered(&s));
}

#[test]
fn picks_earliest_unapplied() {
    let plans = vec![
        plan("v3", Some(300), None),
        plan("v2", Some(200), None),
        plan("v4", Some(400), None),
        plan("rt", None, Some(7)),
    ];
    let s = ChainStatus { height: 350, spec_version: 7 };
    let mut applied = Vec::new();
    assert_eq!(next_triggered(&plans, &applied, &s).unwrap().name, "v2");
    applied.push("v2".to_string());
    assert_eq!(next_triggered(&plans, &applied, &s).unwrap().name, "v3");
    applied.push("v3".to_string());
    assert_eq!(next_triggered(&plans, &applied, &s).unwrap().name, "rt");
    applied.push("rt".to_string());
    assert!(next_triggered(&plans, &applied, &s).is_none());
}

#[test]
fn names() {
    assert_eq!(normalize_name("Node-1.1.0").unwrap(), "node-1.1.0");
    assert!(normalize_name("../etc").is_err());
    assert!(normalize_name("a/b").is_err());
    assert!(normalize_name("..").is_err());
    assert!(normalize_name("").is_err());
    assert!(plan("x", None, None).validate().is_err());
}

#[test]
fn plan_faults_are_told() {
    assert_eq!(validate_name("V2"), Err(PlanError::InvalidName));
    assert_eq!(validate_name("."), Err(PlanError::InvalidName));
    assert_eq!(validate_name("..."), Ok(()));
    assert_eq!(validate_name("v_2-x.0"), Ok(()));
    assert_eq!(plan("x", None, None).validate(), Err(PlanError::NoTrigger));
    assert_eq!(plan("X", None, None).validate(), Err(PlanError::InvalidName));
    assert_eq!(plan("x", None, Some(0)).validate(), Ok(()));
}

#[test]
fn normal_names_are_stable() {
    let once = normalize_name("  Node-2.0 \n").unwrap();
    assert_eq!(once, "node-2.0");
    assert_eq!(normalize_name(&once).unwrap(), once);
}

#[test]
fn ties_go_by_spec_version_then_name() {
    let s = ChainStatus { height: 10, spec_version: 10 };
    let plans = vec![
        plan("c", Some(5), None),
        plan("b", Some(5), Some(3)),
        plan("a", Some(5), Some(3)),
        plan("0", None, Some(1)),
    ];
    let mut applied = Vec::new();
    for want in ["a", "b", "c", "0"] {
        let got = next_triggered(&plans, &applied, &s).unwrap().name.clone();
        assert_eq!(got, want);
        applied.push(got);
    }
    assert!(contains_name(&applied, "c"));
    assert!(!contains_name(&applied, "d"));
}

#[test]
fn triggered_plans_stay_triggered() {
    let p = plan("a", Some(100), Some(7));
    assert!(!p.is_triggered(&ChainStatus { height: 99, spec_version: 6 }));
    assert!(p.is_triggered(&ChainStatus { height: 100, spec_version: 6 }));
    assert!(p.is_triggered(&ChainStatus { height: 101, spec_version: 6 }));
    assert!(p.is_triggered(&ChainStatus { height: 99, spec_version: 8 }));
}

#[test]
fn triggers_in_words() {
    assert_eq!(plan("a", Some(10), Some(7)).describe_trigger(), "height >= 10 or spec_version >= 7");
    assert_eq!(plan("a", Some(0), Some(7)).describe_trigger(), "height >= 0 or spec_version >= 7");
    assert_eq!(plan("a", Some(0), None).describe_trigger(), "immediate");
    assert_eq!(plan("a", Some(2_500_000), None).describe_trigger(), "height >= 2500000");
    assert_eq!(plan("a", None, Some(7)).describe_trigger(), "spec_version >= 7");
    assert_eq!(plan("a", None, None).describe_trigger(), "never (invalid)");
    assert_eq!(
        plan("a", Some(u64::MAX), None).describe_trigger(),
        "height >= 18446744073709551615"
    );
}

#[test]
fn copies_say_the_same() {
    let mut p = plan("a", Some(1), Some(2));
    p.info = Some(Json::Object(vec![(
        "binaries".to_string(),
        Json::Array(vec![Json::Null, Json::Bool(true), Json::Number("1.5".to_string())]),
    )]));
    let q = p.copy();
    assert_eq!((q.name, q.height, q.spec_version), ("a".to_string(), Some(1), Some(2)));
    assert_eq!(q.info, p.info);
}

#[test]
fn catching_up_takes_all_in_order() {
    let s = ChainStatus { height: 10, spec_version: 10 };
    let list = [("e", 11), ("d", 4), ("a", 9), ("c", 2), ("b", 4), ("f", 1)];
    let catch_up = |order: &[usize]| -> Vec<String> {
        let plans: Vec<UpgradePlan> =
            order.iter().map(|i| plan(list[*i].0, Some(list[*i].1), None)).collect();
        let mut applied = vec!["f".to_string()];
        let mut picks = Vec::new();
        while let Some(p) = next_triggered(&plans, &applied, &s) {
            picks.push(p.name.clone());
            applied.push(p.name.clone());
        }
        picks
    };
    assert_eq!(catch_up(&[0, 1, 2, 3, 4, 5]), ["c", "b", "d", "a"]);
    assert_eq!(catch_up(&[5, 4, 3, 2, 1, 0]), ["c", "b", "d", "a"]);
    assert_eq!(catch_up(&[2, 0, 4, 1, 5, 3]), ["c", "b", "d", "a"]);
}
