//! What the smaller functions give back.

use vstd::prelude::*;

use crate::commands::{split_url_entry, Report};
use crate::config::{
    duration_of, humantime_duration, looked_up, spelled, Config, Finality, LoadError, Settings,
};
use crate::download::{
    candidates, fetch_of, fetch_result, find_checksum, select_binary, split_checksum,
    split_result, sum_view, without_checksum, Checksum, ChecksumError, ChecksumView, DocumentError,
    Downloader, Fetch, FetchError, Hasher, InfoError, UrlError,
};
use crate::json::{Json, JsonView};
use crate::layout::{is_executable, Layout, BINARY_MODE};
use crate::path;
use crate::plan::{plan_views, ChainStatus, UpgradePlan};
use crate::rpc::{
    answer, parse_block_number, Answer, BlockNumberError, Progress, Request, RpcClient, Stage,
    StageView,
};
use crate::state::{State, FILE_MODE};
use crate::supervisor::{
    run_preupgrade, warn_unprepared_plans, Command, Due, Notice, Standing,
    VERSION_CHECK_TIMEOUT,
};
use crate::text;
use crate::time::Duration;

verus! {

/// Every setting is looked up under the name of its own variable.
pub proof fn settings_are_looked_up_by_name<F: Fn(&str) -> Option<String>>(get: F, s: Settings)
    requires
        looked_up(get, s),
    ensures
        call_ensures(get, ("DAEMON_HOME",), s.home),
        call_ensures(get, ("DAEMON_NAME",), s.name),
        call_ensures(get, ("DAEMON_RPC_URL",), s.rpc_url),
        call_ensures(get, ("DAEMON_POLL_INTERVAL",), s.poll_interval),
        call_ensures(get, ("DAEMON_UPGRADE_FINALITY",), s.finality),
        call_ensures(get, ("DAEMON_ALLOW_DOWNLOAD_BINARIES",), s.allow_download),
        call_ensures(get, ("DAEMON_DOWNLOAD_MUST_HAVE_CHECKSUM",), s.must_have_checksum),
        call_ensures(get, ("DAEMON_RESTART_AFTER_UPGRADE",), s.restart_after_upgrade),
        call_ensures(get, ("DAEMON_RESTART_DELAY",), s.restart_delay),
        call_ensures(get, ("DAEMON_SHUTDOWN_GRACE",), s.shutdown_grace),
        call_ensures(get, ("DAEMON_DATA_DIR",), s.data_dir),
        call_ensures(get, ("DAEMON_DATA_BACKUP_DIR",), s.backup_dir),
        call_ensures(get, ("UNSAFE_SKIP_BACKUP",), s.skip_backup),
        call_ensures(get, ("DAEMON_PREUPGRADE_SCRIPT",), s.preupgrade_script),
        call_ensures(get, ("MIDNIGHT_NODE_UPDATER_DISABLE_LOGS",), s.disable_logs),
{
}

/// No span is refused for its length that a span can have: whatever spells out less than the
/// seconds that 64 bits hold is read as humantime reads it.
pub proof fn spans_are_read_up_to_the_longest(t: Seq<char>, default: Duration)
    ensures
        duration_of(None, default) == Some(default),
        spelled(t) < 18_446_744_073_709_551_616 * 1_000_000_000 ==> duration_of(Some(t), default)
            == humantime_duration(t),
        spelled(t) >= 18_446_744_073_709_551_616 * 1_000_000_000 ==> duration_of(
            Some(t),
            default,
        ) is None,
{
}

/// A configuration without a file is made of the variables alone.
pub proof fn no_file_means_no_other_settings(
    env: Settings,
    r: Result<Config, LoadError>,
)
    requires
        call_ensures(Config::load, (env, None), r),
    ensures
        env.home is None ==> r is Err,
        env.home is Some && env.home->0@.len() == 0 ==> r is Err,
        r matches Ok(c) ==> env.home is Some && c.home@ == env.home->0@,
        r matches Ok(c) ==> (env.data_dir is Some && env.data_dir->0@.len() > 0 ==> c@.data_dir
            == Some(env.data_dir->0@)),
        r matches Ok(c) ==> (env.data_dir is None || env.data_dir->0@.len() == 0
            ==> c@.data_dir is None),
{
}

/// The places of an installation are the ones that its layout has.
pub proof fn layouts_tell_their_places(
    home: &str,
    daemon: &str,
    l: Layout,
    name: &str,
    link: Option<&str>,
    genesis: String,
    upgrades: String,
    upgrade: String,
    plan: String,
    current: String,
    state: String,
    bin: String,
    dir: String,
    active: String,
)
    requires
        call_ensures(Layout::new, (home, daemon), l),
        call_ensures(Layout::genesis_dir, (&l,), genesis),
        call_ensures(Layout::upgrades_dir, (&l,), upgrades),
        call_ensures(Layout::upgrade_dir, (&l, name), upgrade),
        call_ensures(Layout::plan_file, (&l, name), plan),
        call_ensures(Layout::current_link, (&l,), current),
        call_ensures(Layout::state_file, (&l,), state),
        call_ensures(Layout::upgrade_bin, (&l, name), bin),
        call_ensures(Layout::current_dir, (&l, link), dir),
        call_ensures(Layout::current_name, (&l, link), active),
        home@.len() > 0,
        home@[home@.len() - 1] != '/',
        daemon@.len() > 0,
        daemon@[0] != '/',
        crate::plan::valid_name(name@),
    ensures
        ({
            let root = home@ + "/"@ + "midnight-node-updater"@;
            &&& genesis@ == root + "/"@ + "genesis"@
            &&& upgrades@ == root + "/"@ + "upgrades"@
            &&& upgrade@ == root + "/"@ + "upgrades"@ + "/"@ + name@
            &&& plan@ == root + "/"@ + "upgrades"@ + "/"@ + name@ + "/"@ + "upgrade-info.json"@
            &&& current@ == root + "/"@ + "current"@
            &&& state@ == root + "/"@ + "state.json"@
            &&& bin@ == root + "/"@ + "upgrades"@ + "/"@ + name@ + "/"@ + "bin"@ + "/"@ + daemon@
            &&& link is None ==> dir@ == genesis@ && active@ == "genesis"@
            &&& link is Some && link->0@ == "upgrades"@ + "/"@ + name@ ==> dir@ == upgrade@
                && active@ == name@
        }),
{
    crate::laws::files::files_lie_in_their_places(home@, daemon@, name@);
    crate::laws::files::current_leads_where_it_points(l@, name@, Seq::empty());
    crate::layout::switch_is_read_back(home@, daemon@, name@);
    crate::layout::genesis_is_read_back(home@, daemon@);
}

/// A file can be run if someone may execute it.
pub proof fn executable_files_have_an_execute_bit(is_file: bool, mode: u32, r: bool)
    requires
        call_ensures(is_executable, (is_file, mode), r),
    ensures
        r <==> is_file && (mode & 0o100 != 0 || mode & 0o010 != 0 || mode & 0o001 != 0),
{
    assert(mode & 0o111 != 0 <==> (mode & 0o100 != 0 || mode & 0o010 != 0 || mode & 0o001 != 0))
        by (bit_vector);
}

/// What is installed can be read and run by anyone, and what is recorded can be read by
/// anyone; only the owner may change either.
pub proof fn installed_files_are_for_everyone(r: bool)
    requires
        call_ensures(is_executable, (true, BINARY_MODE), r),
    ensures
        r,
        BINARY_MODE & 0o111 == 0o111,
        BINARY_MODE & 0o444 == 0o444,
        BINARY_MODE & 0o222 == 0o200,
        FILE_MODE & 0o111 == 0,
        FILE_MODE & 0o444 == 0o444,
        FILE_MODE & 0o222 == 0o200,
{
    assert(0o755u32 & 0o111 == 0o111 && 0o755u32 & 0o444 == 0o444 && 0o755u32 & 0o222 == 0o200)
        by (bit_vector);
    assert(0o644u32 & 0o111 == 0 && 0o644u32 & 0o444 == 0o444 && 0o644u32 & 0o222 == 0o200)
        by (bit_vector);
}

/// A binary has half a minute to tell its version.
pub proof fn binaries_have_half_a_minute()
    ensures
        2 * VERSION_CHECK_TIMEOUT == 60,
{
}

/// The names of the applied upgrades are those that are recorded, and a fresh state has none.
pub proof fn applied_names_are_the_recorded_ones(
    state: &State,
    r: Vec<String>,
    fresh: State,
    i: int,
)
    requires
        call_ensures(State::applied_names, (state,), r),
        call_ensures(State::default, (), fresh),
        0 <= i < r@.len(),
    ensures
        r@.len() == state.applied@.len(),
        r@[i]@ == state.applied@[i].name@,
        fresh@.applied.len() == 0,
        fresh@.last_observed is None,
{
    assert(text::texts(r@).len() == r@.len());
    assert(state@.names().len() == state.applied@.len());
    assert(text::texts(r@)[i] == r@[i]@);
    assert(state@.names()[i] == state.applied@[i].name@);
}

/// A document names its binary for a platform as a plan's own instructions do.
pub proof fn documents_name_binaries(
    bytes: &[u8],
    platform: &str,
    r: Result<String, DocumentError>,
    doc: &Json,
    s: Result<String, InfoError>,
)
    requires
        call_ensures(Downloader::read_document, (bytes, platform), r),
        call_ensures(select_binary, (doc, platform), s),
        crate::json::json_document(bytes@) == Some(doc@),
    ensures
        r is Ok <==> s is Ok,
        r matches Ok(url) ==> s is Ok && url@ == s->Ok_0@,
        r matches Err(DocumentError::Info(e)) ==> s is Err && e == s->Err_0,
        !(r matches Err(DocumentError::Syntax(_))),
{
}

/// The binary for a platform is the one that the document names for it, and else for any.
pub proof fn binaries_are_selected_by_platform(
    doc: &Json,
    platform: &str,
    r: Result<String, InfoError>,
    binaries: Map<Seq<char>, JsonView>,
    url: Seq<char>,
)
    requires
        call_ensures(select_binary, (doc, platform), r),
        doc@.at("binaries"@) == Some(JsonView::Object(binaries)),
    ensures
        binaries.contains_key(platform@) && binaries[platform@] == JsonView::Text(url) ==> (r
            matches Ok(u) && u@ == url),
        !binaries.contains_key(platform@) && binaries.contains_key("any"@) && binaries["any"@]
            == JsonView::Text(url) ==> (r matches Ok(u) && u@ == url),
        !binaries.contains_key(platform@) && !binaries.contains_key("any"@) ==> r is Err,
{
}

/// What is downloaded from a URL is what the URL without its checksum leads to, and has to have
/// that checksum.
pub proof fn fetches_follow_the_split(
    strict: bool,
    raw: Seq<char>,
    url: String,
    sum: Option<Checksum>,
    e: UrlError,
    r: Result<Fetch, FetchError>,
)
    requires
        fetch_result(strict, raw, r),
    ensures
        split_result(raw, Ok((url, sum))) ==> fetch_of(strict, url@, sum_view(sum), r),
        split_result(raw, Err(e)) ==> r matches Err(FetchError::Url(_)),
{
}

/// A downloader insists on checksums exactly if it is made to, and follows the split of a URL.
pub proof fn downloaders_follow_the_split(
    must_have: bool,
    d: Downloader,
    raw: &str,
    s: Result<(String, Option<Checksum>), UrlError>,
    r: Result<Fetch, FetchError>,
)
    requires
        call_ensures(Downloader::new, (must_have,), d),
        call_ensures(split_checksum, (raw,), s),
        call_ensures(Downloader::fetch, (&d, raw), r),
    ensures
        s is Err ==> r is Err,
        s matches Ok((_, sum)) ==> (r is Err <==> must_have && sum is None),
        r matches Ok(f) ==> s is Ok && f.url@ == s->Ok_0.0@ && sum_view(f.checksum) == sum_view(
            s->Ok_0.1,
        ),
{
}

/// A digest is of the kind that the checksum asks for, starts with nothing, and is written out
/// in hexadecimal digits.
pub proof fn digests_suit_their_checksums(sum: &Checksum, r: Option<Hasher>, h: Hasher, out: String)
    requires
        call_ensures(Hasher::for_checksum, (Some(sum),), r),
        call_ensures(Hasher::finish, (h,), out),
    ensures
        r matches Some(fresh) && fresh.fed().len() == 0 && (fresh is Sha256 <==> *sum is Sha256),
        h is Sha256 ==> out@ == crate::download::hex_text(crate::download::sha256(h.fed())),
        h is Sha512 ==> out@ == crate::download::hex_text(crate::download::sha512(h.fed())),
{
}

/// The first checksum of a query counts, and what is left of the query is all the rest.
pub proof fn checksums_are_found_and_taken_out(
    pairs: &Vec<(String, String)>,
    r: Result<Option<Checksum>, ChecksumError>,
    query: &str,
    left: Option<String>,
    value: Seq<char>,
)
    requires
        call_ensures(find_checksum, (pairs,), r),
        call_ensures(without_checksum, (query,), left),
        !value.contains('&'),
    ensures
        (forall|i: int| 0 <= i < pairs@.len() ==> (#[trigger] pairs@[i]).0@ != "checksum"@) ==> r
            matches Ok(None),
        query@ == "checksum="@ + value ==> left is None,
{
    let views = crate::download::pair_views(pairs@);
    if forall|i: int| 0 <= i < pairs@.len() ==> (#[trigger] pairs@[i]).0@ != "checksum"@ {
        assert forall|i: int| 0 <= i < views.len() implies (#[trigger] views[i]).0
            != "checksum"@ by {
            assert(views[i].0 == pairs@[i].0@);
        }
        crate::laws::download::first_checksum_counts(views, Seq::empty(), Seq::empty());
    }
    crate::download::checksum_leaves_no_trace(Seq::empty(), value, Seq::empty());
}

/// A checksum in upper or lower case is the same checksum, and is compared by its digits.
pub proof fn checksums_are_parsed(
    s: &str,
    r: Result<Checksum, ChecksumError>,
    digits: Seq<char>,
    hex: Seq<char>,
    c: &Checksum,
    e: &str,
)
    requires
        call_ensures(Checksum::parse, (s,), r),
        call_ensures(Checksum::expected, (c,), e),
        crate::laws::plan::lower_case_of(digits, hex),
        crate::laws::download::all_hex(digits),
    ensures
        s@ == "sha256:"@ + digits && digits.len() == 64 ==> (r matches Ok(sum) && sum@
            == ChecksumView::Sha256(hex)),
        s@ == "sha512:"@ + digits && digits.len() == 128 ==> (r matches Ok(sum) && sum@
            == ChecksumView::Sha512(hex)),
        s@ == "sha256:"@ + digits && digits.len() != 64 ==> r is Err,
        c@ matches ChecksumView::Sha256(d) ==> e@ == d,
        c@ matches ChecksumView::Sha512(d) ==> e@ == d,
{
    reveal_strlit("sha256");
    reveal_strlit("sha512");
    reveal_strlit("sha256:");
    reveal_strlit("sha512:");
    assert("sha256:"@ =~= "sha256"@.push(':'));
    assert("sha512:"@ =~= "sha512"@.push(':'));
    assert(!"sha256"@.contains(':'));
    assert(!"sha512"@.contains(':'));
    crate::laws::download::checksums_are_read("sha256"@, "sha256"@, digits, hex);
    crate::laws::download::checksums_are_read("sha512"@, "sha512"@, digits, hex);
}

/// The places of an archive that are looked at first are `bin` and the top.
pub proof fn candidates_are_bin_and_top(dir: &str, name: &str, r: (String, String))
    requires
        call_ensures(candidates, (dir, name), r),
    ensures
        r.0@ == path::joined(path::joined(dir@, "bin"@), name@),
        r.1@ == path::joined(dir@, name@),
{
}

/// A `--url` value is split at its first equals sign where a platform stands before it.
pub proof fn url_values_are_split(u: &str, r: (String, String), key: Seq<char>, url: Seq<char>)
    requires
        call_ensures(split_url_entry, (u,), r),
        !key.contains('='),
        u@ == key.push('=') + url,
    ensures
        !key.contains(':') && (key.contains('/') || key == "any"@) ==> r.0@ == key && r.1@ == url,
        key.contains(':') ==> r.0@ == "any"@ && r.1@ == u@,
        !key.contains('/') && key != "any"@ ==> r.0@ == "any"@ && r.1@ == u@,
{
    crate::laws::commands::other_url_values_stay_whole(key, url);
}

/// The JSON of a report has the live chain status, the home and every plan.
pub proof fn reports_are_written_in_json(r: &Report, state: &State, j: Json, c: ChainStatus)
    requires
        call_ensures(Report::to_json, (r, state), j),
    ensures
        r.chain == Some(c) ==> j@.at("chain"@) == Some(crate::commands::chain_json(Some(c))),
        r.chain is None ==> j@.at("chain"@) == Some(JsonView::Null),
        j@.at("home"@) == Some(JsonView::Text(r.home@)),
        j@.at("upgrades"@) matches Some(JsonView::Array(upgrades)) && upgrades.len()
            == r.upgrades@.len(),
{
    crate::laws::commands::report_in_json(r@, state@);
}

/// The script is run from the installation, with the upgrade and the height that was seen.
pub proof fn scripts_are_run_with_the_upgrade(
    cfg: &Config,
    layout: &Layout,
    script: &str,
    due: &Due,
    r: Command,
)
    requires
        call_ensures(run_preupgrade, (cfg, layout, script, due), r),
    ensures
        r.program@ == path::joined(layout@.root, script@),
        r.args@.len() == 2,
        r.args@[0]@ == due.plan.name@,
        text::natural(r.args@[1]@) == Some(due.status.height as nat),
{
    crate::laws::run::script_is_told_of_the_upgrade(*cfg, layout@, script@, due@);
    assert(r@.args.len() == r.args@.len());
    assert(r@.args[0] == r.args@[0]@);
    assert(r@.args[1] == r.args@[1]@);
}

/// Every plan that was not applied is spoken of when the node is launched, as missing exactly
/// if its binary is not there and will not be downloaded.
pub proof fn missing_binaries_are_warned_of(
    cfg: &Config,
    layout: &Layout,
    state: &State,
    plans: &Vec<UpgradePlan>,
    there: &Vec<bool>,
    platform: &str,
    r: Vec<Notice>,
    i: int,
)
    requires
        call_ensures(warn_unprepared_plans, (cfg, layout, state, plans, there, platform), r),
        there@.len() == plans@.len(),
        0 <= i < plans@.len(),
        !state@.names().contains(plans@[i].name@),
    ensures
        exists|k: int|
            #![trigger r@[k]]
            0 <= k < r@.len() && r@[k].name@ == plans@[i].name@ && (r@[k].standing
                == Standing::Installed) == there@[i] && (!there@[i] && !cfg.allow_download
                ==> r@[k].standing == Standing::Missing),
{
    let views = plan_views(plans@);
    let applied = state@.names().to_set();
    crate::laws::run::pending_plans_are_spoken_of(
        views,
        layout@,
        applied,
        cfg.allow_download,
        there@,
        platform@,
        i,
    );
    assert(views[i] == plans@[i]@);
    let notices = crate::supervisor::notice_views(r@);
    let notice = crate::supervisor::notice_of(
        views[i],
        layout@,
        cfg.allow_download,
        there@[i],
        platform@,
    );
    let k = choose|k: int| 0 <= k < notices.len() && notices[k] == notice;
    assert(r@[k]@ == notice);
}

/// The node is asked for the block of the finality that is set, then for that very block.
pub proof fn questions_follow_on_each_other(
    c: &RpcClient,
    finality: Finality,
    first: Stage,
    hash: String,
    second: Progress,
    q: Request,
)
    requires
        call_ensures(RpcClient::status, (c, finality), first),
        call_ensures(Stage::next, (first, Answer::Hash(hash)), second),
        call_ensures(Stage::request, (&first,), q),
    ensures
        finality == Finality::Best ==> q.method@ == "chain_getBlockHash"@,
        finality == Finality::Finalized ==> q.method@ == "chain_getFinalizedHead"@,
        second@ == crate::rpc::ProgressView::Ask(StageView::Header { hash: hash@ }),
{
}

/// An answer is taken only in the shape that was asked for: a text for a hash, a text under
/// `number` for a header, and a number of 32 bits under `specVersion` for a runtime.
pub proof fn answers_have_their_shapes(stage: &Stage, result: &Json, r: Option<Answer>)
    requires
        call_ensures(answer, (stage, result), r),
    ensures
        r matches Some(Answer::Hash(h)) ==> stage is Hash && result@ == JsonView::Text(h@),
        r matches Some(Answer::Header(n)) ==> stage is Header && (result@ is Object ==> result@.at(
            "number"@,
        ) == Some(JsonView::Text(n@))),
        r matches Some(Answer::Version(v)) ==> stage is Version && (result@ is Object ==> (
        result@.at("specVersion"@) matches Some(JsonView::Number(s)) && text::natural(s) == Some(
            v as nat,
        ))),
        stage is Hash && result@ is Text ==> r is Some,
        stage is Header && result@.at("number"@) is Some && result@.at("number"@)->0 is Text
            ==> r is Some,
{
}

/// A block number is read as it is written.
pub proof fn block_numbers_are_parsed(n: &str, r: Result<u64, BlockNumberError>)
    requires
        call_ensures(parse_block_number, (n,), r),
    ensures
        r == crate::rpc::block_number(n@),
        !"0x"@.is_prefix_of(n@) ==> r is Err,
{
}

} // verus!
