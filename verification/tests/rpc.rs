use midnight_node_updater::config::Finality;
use midnight_node_updater::json::{parse, Json};
use midnight_node_updater::plan::ChainStatus;
use midnight_node_updater::rpc::{
    answer, parse_block_number, reply, to_http, Answer, BlockNumberError, CallError, Progress, RpcClient,
    RpcError, Stage,
};
use midnight_node_updater::time::Duration;

#[test]
fn block_numbers() {
    assert_eq!(parse_block_number("0x0").unwrap(), 0);
    assert_eq!(parse_block_number("0x1a2b").unwrap(), 0x1a2b);
    assert!(parse_block_number("123").is_err());
}

#[test]
fn ws_urls_become_http() {
    assert_eq!(
        RpcClient::new("ws://127.0.0.1:9944", Duration::from_secs(1)).unwrap().url(),
        "http://127.0.0.1:9944"
    );
    assert!(RpcClient::new("not a url", Duration::from_secs(1)).is_err());
}

#[test]
fn block_numbers_agree_with_std() {
    for digits in [
        "", "0", "+1", "-1", "+", "ff", "FF", "00000000000000000000001", "ffffffffffffffff",
        "10000000000000000", "g", " 1", "0x1", "1_0", "++1", "fffffffffffffffff",
    ] {
        assert_eq!(
            parse_block_number(&format!("0x{digits}")).ok(),
            u64::from_str_radix(digits, 16).ok(),
            "{digits:?}"
        );
    }
    assert_eq!(parse_block_number("10"), Err(BlockNumberError::NotHex));
    assert_eq!(parse_block_number("0X10"), Err(BlockNumberError::NotHex));
    assert_eq!(parse_block_number("0x"), Err(BlockNumberError::Bad));
}

#[test]
fn http_urls_stay() {
    assert_eq!(to_http("wss://x/y"), "https://x/y");
    assert_eq!(to_http("http://x"), "http://x");
    assert_eq!(to_http("WS://x"), "WS://x");
    let c = RpcClient::new("http://x", Duration::from_secs(5)).unwrap();
    assert_eq!(c.url(), "http://x");
    assert_eq!(c.timeout(), Duration::from_secs(5));
}

fn ask(p: Progress) -> Stage {
    match p {
        Progress::Ask(s) => s,
        other => panic!("{other:?}"),
    }
}

#[test]
fn status_is_read_at_one_block() {
    let c = RpcClient::new("http://x", Duration::from_secs(5)).unwrap();
    for (finality, method) in
        [(Finality::Best, "chain_getBlockHash"), (Finality::Finalized, "chain_getFinalizedHead")]
    {
        let s = c.status(finality);
        let r = s.request();
        assert_eq!(r.method, method);
        assert!(r.params.is_empty());
        let s = ask(s.next(Answer::Hash("0xabc".to_string())));
        let r = s.request();
        assert_eq!(r.method, "chain_getHeader");
        assert_eq!(r.params, vec![Json::Text("0xabc".to_string())]);
        let s = ask(s.next(Answer::Header("0x2a".to_string())));
        let r = s.request();
        assert_eq!(r.method, "state_getRuntimeVersion");
        assert_eq!(r.params, vec![Json::Text("0xabc".to_string())]);
        match s.next(Answer::Version(7)) {
            Progress::Done(status) => {
                assert_eq!(status, ChainStatus { height: 42, spec_version: 7 })
            }
            other => panic!("{other:?}"),
        }
    }
}

#[test]
fn answers_out_of_turn_are_refused() {
    let c = RpcClient::new("http://x", Duration::from_secs(5)).unwrap();
    assert!(matches!(c.status(Finality::Best).next(Answer::Version(1)), Progress::OutOfTurn));
    let s = ask(c.status(Finality::Best).next(Answer::Hash("h".to_string())));
    let s = ask(s.next(Answer::Header("12".to_string())));
    assert!(matches!(s.next(Answer::Version(1)), Progress::Failed(BlockNumberError::NotHex)));
}

fn stages() -> (Stage, Stage, Stage) {
    let hash = "0xabc".to_string();
    (
        Stage::Hash(Finality::Best),
        Stage::Header { hash: hash.clone() },
        Stage::Version { hash, number: "0x2a".to_string() },
    )
}

#[test]
fn answers_have_the_shape_that_was_asked_for() {
    let (hash, header, version) = stages();
    let read = |stage: &Stage, doc: &str| answer(stage, &parse(doc.as_bytes()).unwrap());
    assert!(matches!(read(&hash, r#""0xabc""#), Some(Answer::Hash(h)) if h == "0xabc"));
    for other in ["null", "1", "true", "[]", r#"["0xabc"]"#, r#"{"number": "0x1"}"#] {
        assert!(read(&hash, other).is_none(), "{other}");
    }
    let full = r#"{"parentHash": "0x0", "number": "0x2a", "digest": {"logs": []}}"#;
    assert!(matches!(read(&header, full), Some(Answer::Header(n)) if n == "0x2a"));
    assert!(matches!(read(&header, r#"["0x2a"]"#), Some(Answer::Header(n)) if n == "0x2a"));
    for other in [
        "null", r#""0x2a""#, "{}", r#"{"number": 42}"#, r#"{"number": null}"#, r#"{"Number": "0x2a"}"#,
        "[]", "[42]", r#"["0x2a", "0x2b"]"#,
    ] {
        assert!(read(&header, other).is_none(), "{other}");
    }
    let full = r#"{"specName": "midnight", "specVersion": 22000, "implVersion": 0}"#;
    assert!(matches!(read(&version, full), Some(Answer::Version(22000))));
    assert!(matches!(read(&version, "[7]"), Some(Answer::Version(7))));
    for other in [
        "null", "7", "{}", r#"{"spec_version": 7}"#, r#"{"specVersion": "7"}"#,
        r#"{"specVersion": null}"#, "[]", "[7, 8]", r#"["7"]"#,
    ] {
        assert!(read(&version, other).is_none(), "{other}");
    }
}

#[test]
fn runtime_versions_are_numbers_of_32_bits() {
    let (_, _, version) = stages();
    for (text, value) in [
        ("0", Some(0)),
        ("9", Some(9)),
        ("10", Some(10)),
        ("4294967295", Some(u32::MAX)),
        ("4294967296", None),
        ("4294967300", None),
        ("18446744073709551616", None),
        ("-1", None),
        ("-0", None),
        ("7.0", None),
        ("1e3", None),
    ] {
        let doc = parse(format!("{{\"specVersion\": {text}}}").as_bytes()).unwrap();
        match (answer(&version, &doc), value) {
            (Some(Answer::Version(found)), Some(v)) => assert_eq!(found, v),
            (None, None) => {}
            other => panic!("{text}: {other:?}"),
        }
    }
}

#[test]
fn status_is_what_the_results_say() {
    let c = RpcClient::new("http://x", Duration::from_secs(5)).unwrap();
    let s = c.status(Finality::Finalized);
    let a = answer(&s, &Json::text("0xabc")).unwrap();
    let s = ask(s.next(a));
    let a = answer(&s, &Json::object().with("number", Json::text("0x2a"))).unwrap();
    let s = ask(s.next(a));
    let a = answer(&s, &Json::object().with("specVersion", Json::number(7))).unwrap();
    match s.next(a) {
        Progress::Done(status) => assert_eq!(status, ChainStatus { height: 42, spec_version: 7 }),
        other => panic!("{other:?}"),
    }
}

#[test]
fn requests_are_json_rpc() {
    let c = RpcClient::new("http://x", Duration::from_secs(5)).unwrap();
    let body = c.status(Finality::Best).request().body();
    assert_eq!(body.get("jsonrpc").unwrap().as_str(), Some("2.0"));
    assert_eq!(body.get("id"), Some(&Json::Number("1".to_string())));
    assert_eq!(body.get("method").unwrap().as_str(), Some("chain_getBlockHash"));
    assert_eq!(body.get("params"), Some(&Json::Array(vec![])));
    assert_eq!(body.get("other"), None);
}

#[test]
fn replies_are_sorted_out() {
    assert_eq!(reply(Some(Json::Bool(true)), None).unwrap(), Json::Bool(true));
    assert!(matches!(reply(Some(Json::Null), None), Err(CallError::Empty)));
    assert!(matches!(reply(None, None), Err(CallError::Empty)));
    let error = RpcError { code: -32601, message: "Method not found".to_string() };
    match reply(Some(Json::Bool(true)), Some(error)) {
        Err(CallError::Rpc(e)) => {
            assert_eq!((e.code, e.message.as_str()), (-32601, "Method not found"))
        }
        other => panic!("{other:?}"),
    }
}

#[test]
fn json_documents_are_read() {
    let doc = parse(br#"{"a": [1, -2.5, null, true, "x\n"], "b": {}, "a2": 18446744073709551615}"#)
        .unwrap();
    assert_eq!(
        doc.get("a"),
        Some(&Json::Array(vec![
            Json::Number("1".to_string()),
            Json::Number("-2.5".to_string()),
            Json::Null,
            Json::Bool(true),
            Json::Text("x\n".to_string()),
        ]))
    );
    assert_eq!(doc.get("b"), Some(&Json::Object(vec![])));
    assert_eq!(doc.get("a2"), Some(&Json::Number("18446744073709551615".to_string())));
    assert_eq!(doc.get("c"), None);
    assert_eq!(Json::Null.get("a"), None);
    assert!(parse(b"{").is_err());
    let twice = Json::object().with("k", Json::number(1)).with("k", Json::number(2));
    assert_eq!(twice.get("k"), Some(&Json::Number("2".to_string())));
    assert_eq!(Json::Null.with("k", Json::Null), Json::Null);
}
