use midnight_node_updater::download::{
    candidates, find_checksum, find_file, has_download_info, packing, platform, select_binary,
    split_checksum, unpack, without_checksum, Checksum, ChecksumError, DocumentError, Downloader,
    FetchError, Hasher, InfoError, Instructions, Node, Packing, Source, UrlError,
};
use midnight_node_updater::json::Json;

fn text(t: &str) -> Json {
    Json::Text(t.to_string())
}

fn object(entries: &[(&str, Json)]) -> Json {
    Json::Object(entries.iter().map(|(k, v)| (k.to_string(), v.copy())).collect())
}

fn here() -> String {
    platform("linux", "x86_64")
}

#[test]
fn checksum_split() {
    let h = "a".repeat(64);
    let (url, sum) =
        split_checksum(&format!("https://x.io/node.tar.gz?checksum=sha256:{h}&foo=bar")).unwrap();
    assert_eq!(url, "https://x.io/node.tar.gz?foo=bar");
    assert_eq!(sum, Some(Checksum::Sha256(h.clone())));
    let (url, sum) = split_checksum("https://x.io/node").unwrap();
    assert_eq!(url, "https://x.io/node");
    assert!(sum.is_none());
    assert!(split_checksum("https://x.io/n?checksum=md5:abc").is_err());
    assert!(split_checksum("https://x.io/n?checksum=sha256:zz").is_err());
    assert!(split_checksum("ftp://x.io/n").is_err());
    // Pre-signed URLs must survive byte-for-byte.
    let signed = "https://b.s3.amazonaws.com/n.tar.gz?X-Amz-Credential=AK%2F2026%2Fus&X-Amz-Signature=ab%3Dcd";
    let (url, sum) = split_checksum(&format!("{signed}&checksum=sha256:{h}")).unwrap();
    assert_eq!(url, signed);
    assert!(sum.is_some());
}

#[test]
fn selects_platform_or_any() {
    let doc = object(&[(
        "binaries",
        object(&[(&here(), text("https://a")), ("any", text("https://b"))]),
    )]);
    assert_eq!(select_binary(&doc, &here()).unwrap(), "https://a");
    let doc = object(&[("binaries", object(&[("any", text("https://b"))]))]);
    assert_eq!(select_binary(&doc, &here()).unwrap(), "https://b");
    assert!(select_binary(&object(&[("binaries", object(&[("plan9/mips", text("x"))]))]), &here())
        .is_err());
}

#[test]
fn platforms_in_go_notation() {
    assert_eq!(platform("linux", "x86_64"), "linux/amd64");
    assert_eq!(platform("macos", "aarch64"), "darwin/arm64");
    assert_eq!(platform("windows", "x86"), "windows/386");
    assert_eq!(platform("freebsd", "riscv64"), "freebsd/riscv64");
}

#[test]
fn checksums_are_read() {
    let long = "0123456789abcdef".repeat(8);
    assert_eq!(
        Checksum::parse(&format!("SHA512:{}", long.to_uppercase())),
        Ok(Checksum::Sha512(long.clone()))
    );
    assert_eq!(Checksum::parse("sha256"), Err(ChecksumError::NoAlgorithm));
    assert_eq!(Checksum::parse("md5:00"), Err(ChecksumError::UnknownAlgorithm));
    assert_eq!(Checksum::parse("sha256:00"), Err(ChecksumError::Malformed));
    assert_eq!(
        Checksum::parse(&format!("sha256:{}", "g".repeat(64))),
        Err(ChecksumError::Malformed)
    );
    assert_eq!(Checksum::parse(&format!("sha256:{long}")), Err(ChecksumError::Malformed));
    assert_eq!(Checksum::parse(&format!("sha512:{long}")).unwrap().expected(), long);
}

#[test]
fn url_faults_are_told() {
    assert!(matches!(split_checksum("not a url"), Err(UrlError::Invalid(_))));
    assert!(matches!(split_checksum("ftp://x.io/n"), Err(UrlError::Scheme)));
    assert!(matches!(
        split_checksum("https://x.io/n?checksum=md5:abc"),
        Err(UrlError::Checksum(ChecksumError::UnknownAlgorithm))
    ));
}

#[test]
fn checksum_leaves_no_trace() {
    let h = "0".repeat(64);
    for (with, without) in [
        (format!("https://x/n?checksum=sha256:{h}"), "https://x/n"),
        (format!("https://x/n?a=1&checksum=sha256:{h}&b=2#frag"), "https://x/n?a=1&b=2#frag"),
        (format!("https://x/n?checksum=sha256:{h}&b=%3D"), "https://x/n?b=%3D"),
        (format!("http://x/n?a&checksum=sha256:{h}&&"), "http://x/n?a"),
        (format!("file:///tmp/n?checksum=sha256:{h}#f"), "file:///tmp/n#f"),
        (format!("https://x/n?%63hecksum=sha256:{h}"), &format!("https://x/n?%63hecksum=sha256:{h}")),
    ] {
        let (url, sum) = split_checksum(&with).unwrap();
        assert_eq!(url, without);
        assert_eq!(sum, Some(Checksum::Sha256(h.clone())));
    }
    assert_eq!(split_checksum("HTTPS://X.io").unwrap().0, "https://x.io/");
    assert_eq!(split_checksum("https://x/?").unwrap().0, "https://x/");
}

#[test]
fn queries_without_checksum() {
    assert_eq!(without_checksum(""), None);
    assert_eq!(without_checksum("checksum"), None);
    assert_eq!(without_checksum("checksum=1&checksum=2"), None);
    assert_eq!(without_checksum("a=1&checksum=2&b"), Some("a=1&b".to_string()));
    assert_eq!(without_checksum("checksums=1"), Some("checksums=1".to_string()));
    assert_eq!(without_checksum("a=%2F&b=+"), Some("a=%2F&b=+".to_string()));
}

#[test]
fn first_checksum_counts() {
    let pair = |k: &str, v: &str| (k.to_string(), v.to_string());
    let h = "1".repeat(64);
    assert_eq!(find_checksum(&vec![pair("a", "b")]), Ok(None));
    assert_eq!(
        find_checksum(&vec![pair("checksum", &format!("sha256:{h}")), pair("checksum", "x")]),
        Ok(Some(Checksum::Sha256(h)))
    );
    assert_eq!(
        find_checksum(&vec![pair("a", "b"), pair("checksum", "x")]),
        Err(ChecksumError::NoAlgorithm)
    );
}

#[test]
fn info_faults_are_told() {
    assert_eq!(select_binary(&Json::Null, "p"), Err(InfoError::NoBinaries));
    assert_eq!(select_binary(&object(&[("binaries", text("x"))]), "p"), Err(InfoError::NoBinaries));
    assert_eq!(
        select_binary(&object(&[("binaries", object(&[]))]), "p"),
        Err(InfoError::NoMatch)
    );
    // The platform's own value counts, even where it is no text.
    assert_eq!(
        select_binary(
            &object(&[("binaries", object(&[("p", Json::Null), ("any", text("x"))]))]),
            "p"
        ),
        Err(InfoError::NoMatch)
    );
}

#[test]
fn download_info_is_recognised() {
    assert!(has_download_info(Some(&text("https://doc")), "p"));
    assert!(has_download_info(Some(&object(&[("binaries", object(&[("p", text("u"))]))])), "p"));
    assert!(!has_download_info(Some(&object(&[("binaries", object(&[("q", text("u"))]))])), "p"));
    assert!(!has_download_info(Some(&Json::Bool(true)), "p"));
    assert!(!has_download_info(None, "p"));
}

#[test]
fn digests_are_checked() {
    let abc256 = "ba7816bf8f01cfea414140de5dae2223b00361a396177a9cb410ff61f20015ad";
    let abc512 = "ddaf35a193617abacc417349ae20413112e6fa4e89a97ea20a9eeee64b55d39a\
                  2192992a274fc1a836ba3c23a3feebbd454d4423643ce80e2a9ac94fa54ca49f";
    for sum in [Checksum::Sha256(abc256.to_string()), Checksum::Sha512(abc512.to_string())] {
        let mut h = Hasher::for_checksum(Some(&sum)).unwrap();
        h.update(b"a");
        h.update(b"");
        h.update(b"bc");
        assert_eq!(h.finish(), sum.expected());
    }
    assert!(Hasher::for_checksum(None).is_none());

    let strict = Downloader::new(true);
    let f = strict.fetch(&format!("file:///tmp/n?checksum=sha256:{abc256}")).unwrap();
    let mut h = Hasher::for_checksum(f.checksum.as_ref());
    h.as_mut().unwrap().update(b"abc");
    assert!(f.verify(h).is_ok());
    let mut h = Hasher::for_checksum(f.checksum.as_ref());
    h.as_mut().unwrap().update(b"abd");
    let e = f.verify(h).unwrap_err();
    assert_eq!(e.expected, abc256);
    assert_eq!(e.actual.len(), 64);
    assert_ne!(e.actual, abc256);
}

#[test]
fn strict_downloads_need_a_checksum() {
    let e = Downloader::new(true).fetch("https://x/n?a=1").unwrap_err();
    assert!(matches!(e, FetchError::NoChecksum(u) if u == "https://x/n?a=1"));
    let f = Downloader::new(false).fetch("https://x/n?a=1").unwrap();
    assert_eq!(f.url, "https://x/n?a=1");
    assert!(matches!(f.source, Source::Remote));
    assert!(f.checksum.is_none());
    assert!(f.verify(None).is_ok());
    let f = Downloader::new(false).fetch("file:///tmp/a%20b").unwrap();
    assert!(matches!(f.source, Source::File(p) if p == "/tmp/a%20b"));
    let e = Downloader::new(false).fetch("gopher://x/n").unwrap_err();
    assert!(matches!(e, FetchError::Url(UrlError::Scheme)));
    let f = Downloader::new(true)
        .fetch_split("https://x/n".to_string(), Some(Checksum::Sha256("0".repeat(64))))
        .unwrap();
    assert_eq!(f.checksum, Some(Checksum::Sha256("0".repeat(64))));
}

#[test]
fn instructions_lead_to_a_document_or_a_binary() {
    let d = Downloader::new(true);
    assert!(
        matches!(d.install(&text("https://doc"), "p"), Ok(Instructions::Document(u)) if u == "https://doc")
    );
    let doc = object(&[("binaries", object(&[("p", text("https://bin"))]))]);
    assert!(matches!(d.install(&doc, "p"), Ok(Instructions::Binary(u)) if u == "https://bin"));
    assert!(matches!(d.install(&doc, "q"), Err(InfoError::NoMatch)));
    assert_eq!(
        Downloader::read_document(br#"{"binaries": {"any": "https://b"}}"#, "p").unwrap(),
        "https://b"
    );
    assert!(matches!(
        Downloader::read_document(b"{not json", "p"),
        Err(DocumentError::Syntax(_))
    ));
    assert!(matches!(
        Downloader::read_document(b"[]", "p"),
        Err(DocumentError::Info(InfoError::NoBinaries))
    ));
}

#[test]
fn packings_are_told_apart() {
    assert_eq!(packing(&[0x1f, 0x8b, 8, 0]), Packing::TarGz);
    assert_eq!(packing(&[0x1f, 0x8b]), Packing::TarGz);
    assert_eq!(packing(b"PK\x03\x04"), Packing::Zip);
    assert_eq!(packing(b"PK\x03"), Packing::Plain);
    assert_eq!(packing(b"\x7fELF"), Packing::Plain);
    assert_eq!(packing(&[0x1f]), Packing::Plain);
    assert_eq!(packing(&[]), Packing::Plain);
}

#[test]
fn binaries_are_found_in_archives() {
    let file = |n: &str| Node::File(n.to_string());
    let dir = |n: &str, v: Vec<Node>| Node::Dir(n.to_string(), v);
    let tree = vec![
        Node::Other,
        file("readme"),
        dir("release", vec![dir("empty", vec![]), dir("bin", vec![file("node")])]),
        dir("later", vec![file("node")]),
    ];
    assert_eq!(
        find_file(&tree, "/x", "node"),
        Ok(Some("/x/release/bin/node".to_string()))
    );
    assert_eq!(find_file(&tree, "/x", "none"), Ok(None));
    assert_eq!(
        candidates("/x", "node"),
        ("/x/bin/node".to_string(), "/x/node".to_string())
    );
    assert_eq!(unpack("/x", "node", true, true, &tree), Ok(Some("/x/bin/node".to_string())));
    assert_eq!(unpack("/x", "node", false, true, &tree), Ok(Some("/x/node".to_string())));
    assert_eq!(
        unpack("/x", "node", false, false, &tree),
        Ok(Some("/x/release/bin/node".to_string()))
    );
    let barred = vec![dir("d", vec![Node::Unreadable("denied".to_string())]), file("node")];
    assert_eq!(find_file(&barred, "/x", "node"), Err("denied".to_string()));
    let barred = vec![file("node"), Node::Unreadable("denied".to_string())];
    assert_eq!(find_file(&barred, "/x", "node"), Ok(Some("/x/node".to_string())));
}
