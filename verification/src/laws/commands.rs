//! What the subcommands other than `run` do: `init`, `add-upgrade`, `status` and
//! `prepare-upgrade`.

use vstd::prelude::*;

use crate::commands::{
    add_fault, addition_of, applied_json, binaries_of, chain_json, chain_line, count_false,
    info_of, init_steps, observed_json, pending_plans, plan_of, report_json, report_lines,
    report_of, upgrade_json, upgrade_line, url_entry, usable_url, AddFault,
    AddUpgrade, Addition, InitSeen, InitView, ReportView, Seen, UpgradeView,
};
use crate::config::{opt_text, Finality};
use crate::download::{binary_for, downloadable, split_result, Checksum, InfoError, UrlError};
use crate::json::JsonView;
use crate::layout::{link_target, LayoutView};
use crate::plan::{normal_name, valid_name, ChainStatus, PlanError, PlanView, UpgradePlan};
use crate::state::{AppliedView, ObservedView, StateView};
use crate::text;

verus! {

/// `init` installs the genesis binary, once, and makes the directory for upgrades before it
/// does. What it finds it leaves alone: it points `current` somewhere only where nothing is
/// there, and writes a fresh state only where there is none. It warns of a binary exactly if
/// it overwrites one.
pub proof fn init_leaves_alone_what_is_there(layout: LayoutView, seen: InitSeen)
    ensures
        ({
            let steps = init_steps(layout, seen);
            &&& steps.first() == InitView::MakeDir(layout.upgrades_dir())
            &&& forall|p: Seq<char>| #[trigger]
                steps.contains(InitView::Install(p)) <==> p == layout.bin_path(layout.genesis_dir())
            &&& forall|p: Seq<char>| #[trigger]
                steps.contains(InitView::Overwrites(p)) <==> seen.binary && p == layout.bin_path(
                    layout.genesis_dir(),
                )
            &&& steps.contains(InitView::PointToGenesis) <==> !seen.link
            &&& forall|p: Seq<char>| #[trigger]
                steps.contains(InitView::SaveState(p)) <==> !seen.state && p == layout.state_file()
            &&& forall|i: int, j: int|
                #![trigger steps[i], steps[j]]
                0 <= i < j < steps.len() ==> init_rank(steps[i]) < init_rank(steps[j])
        }),
{
    let steps = init_steps(layout, seen);
    let dest = layout.bin_path(layout.genesis_dir());
    let a: int = if seen.binary {
        2
    } else {
        1
    };
    let b: int = if seen.link {
        a + 1
    } else {
        a + 2
    };
    let n: int = if seen.state {
        b
    } else {
        b + 1
    };
    assert(steps.len() == n);
    assert(steps[0] == InitView::MakeDir(layout.upgrades_dir()));
    if seen.binary {
        assert(steps[1] == InitView::Overwrites(dest));
    }
    assert(steps[a] == InitView::Install(dest));
    if !seen.link {
        assert(steps[a + 1] == InitView::PointToGenesis);
    }
    if !seen.state {
        assert(steps[b] == InitView::SaveState(layout.state_file()));
    }
    assert forall|i: int| #![trigger steps[i]] 0 <= i < steps.len() implies {
        ||| i == 0
        ||| seen.binary && i == 1
        ||| i == a
        ||| !seen.link && i == a + 1
        ||| !seen.state && i == b
    } by {}
}

/// The place of a step among those of `init`.
pub open spec fn init_rank(step: InitView) -> int {
    match step {
        InitView::MakeDir(_) => 0,
        InitView::Overwrites(_) => 1,
        InitView::Install(_) => 2,
        InitView::PointToGenesis => 3,
        InitView::SaveState(_) => 4,
    }
}

/// A request that is not for an immediate upgrade triggers exactly when the chain has reached
/// one of the triggers that it was given, and never before.
pub proof fn upgrade_waits_for_what_it_was_given(req: AddUpgrade<'_>, status: ChainStatus)
    requires
        !req.immediate,
    ensures
        plan_of(req).triggered(status) <==> (req.height matches Some(h) && status.height >= h) || (
        req.spec_version matches Some(v) && status.spec_version >= v),
        plan_of(req).height == req.height,
        plan_of(req).spec_version == req.spec_version,
{
}

/// An immediate upgrade triggers whatever the chain says, and keeps the runtime version that
/// it was given.
pub proof fn immediate_upgrade_does_not_wait(req: AddUpgrade<'_>, status: ChainStatus)
    requires
        req.immediate,
    ensures
        plan_of(req).triggered(status),
        plan_of(req).height == Some(0u64),
        plan_of(req).spec_version == req.spec_version,
{
}

/// A request is accepted exactly if its name is fit, the upgrade was not applied, there is no
/// plan of that name or it is to be overwritten, there is a trigger and not two that exclude
/// each other, and there is a binary or a place to get it from.
pub proof fn requests_are_accepted_if_complete(
    req: AddUpgrade<'_>,
    applied: Set<Seq<char>>,
    plan_exists: bool,
)
    ensures
        add_fault(req, applied, plan_exists) is None <==> {
            &&& normal_name(req.name@) matches Some(name) && !applied.contains(name)
            &&& plan_exists ==> req.force
            &&& !(req.immediate && req.height is Some)
            &&& req.immediate || req.height is Some || req.spec_version is Some
            &&& req.exe is Some || req.urls@.len() > 0
        },
        add_fault(req, applied, plan_exists) is None ==> normal_name(req.name@) == Some(
            plan_of(req).name,
        ),
{
}

/// What is wrong with a request is really wrong with it.
pub proof fn refusals_are_real(req: AddUpgrade<'_>, applied: Set<Seq<char>>, plan_exists: bool)
    ensures
        match add_fault(req, applied, plan_exists) {
            None => true,
            Some(AddFault::Name(e)) => e == PlanError::InvalidName && normal_name(
                req.name@,
            ) is None,
            Some(AddFault::Applied) => normal_name(req.name@) matches Some(name)
                && applied.contains(name),
            Some(AddFault::Exists) => plan_exists && !req.force,
            Some(AddFault::TwoTriggers) => req.immediate && req.height is Some,
            Some(AddFault::NoTrigger) => !req.immediate && req.height is None
                && req.spec_version is None,
            Some(AddFault::NoBinary) => req.exe is None && req.urls@.len() == 0,
        },
{
}

/// Force gets a request past an existing plan and past nothing else: what is refused with it
/// is refused without it.
pub proof fn force_only_overwrites(
    req: AddUpgrade<'_>,
    forced: AddUpgrade<'_>,
    applied: Set<Seq<char>>,
    plan_exists: bool,
)
    requires
        forced == (AddUpgrade { force: true, ..req }),
    ensures
        add_fault(forced, applied, plan_exists) is Some ==> add_fault(
            req,
            applied,
            plan_exists,
        ) is Some,
        !plan_exists ==> add_fault(forced, applied, false) == add_fault(req, applied, false),
        plan_of(forced) == plan_of(req),
{
}

/// A `--url` value without an equals sign, or with something before it that is no platform,
/// is a URL for any platform, as it stands.
pub proof fn other_url_values_stay_whole(key: Seq<char>, url: Seq<char>)
    requires
        !key.contains('='),
    ensures
        url_entry(key) == ("any"@, key),
        !key.contains('/') && key != "any"@ ==> url_entry(key.push('=') + url) == (
            "any"@,
            key.push('=') + url,
        ),
        key.contains(':') ==> url_entry(key.push('=') + url) == ("any"@, key.push('=') + url),
        !key.contains(':') && (key.contains('/') || key == "any"@) ==> url_entry(
            key.push('=') + url,
        ) == (key, url),
{
    crate::laws::text::cut_at_the_first(key, '=', url);
}

/// Of several URLs for one platform the last counts; a platform that is not named has none.
pub proof fn last_url_for_a_platform_counts(
    front: Seq<Seq<char>>,
    value: Seq<char>,
    rest: Seq<Seq<char>>,
)
    requires
        forall|i: int|
            0 <= i < rest.len() ==> url_entry(#[trigger] rest[i]).0 != url_entry(value).0,
    ensures
        binaries_of(front.push(value) + rest).contains_key(url_entry(value).0),
        binaries_of(front.push(value) + rest)[url_entry(value).0] == JsonView::Text(
            url_entry(value).1,
        ),
        !binaries_of(rest).contains_key(url_entry(value).0),
    decreases rest.len(),
{
    let all = front.push(value) + rest;
    if rest.len() == 0 {
        assert(all =~= front.push(value));
        assert(all.last() == value);
    } else {
        let less = rest.drop_last();
        assert forall|i: int| 0 <= i < less.len() implies url_entry(#[trigger] less[i]).0
            != url_entry(value).0 by {
            assert(less[i] == rest[i]);
        }
        last_url_for_a_platform_counts(front, value, less);
        assert(all.drop_last() =~= front.push(value) + less);
        assert(all.last() == rest[rest.len() - 1]);
        assert(url_entry(rest[rest.len() - 1]).0 != url_entry(value).0);
    }
}

proof fn binaries_are_in_info(urls: Seq<Seq<char>>)
    requires
        urls.len() > 0,
    ensures
        info_of(urls) matches Some(doc) && doc.at("binaries"@) == Some(
            JsonView::Object(binaries_of(urls)),
        ),
{
}

/// What was registered is what is downloaded: a URL that was given for a platform, the last
/// one for it, is the one that the plan names for that platform, and one that was given for
/// any platform is named where there is none for the platform itself.
pub proof fn registered_url_is_the_one_downloaded(
    front: Seq<Seq<char>>,
    value: Seq<char>,
    rest: Seq<Seq<char>>,
    platform: Seq<char>,
)
    requires
        forall|i: int|
            0 <= i < rest.len() ==> url_entry(#[trigger] rest[i]).0 != url_entry(value).0,
        url_entry(value).0 == platform || url_entry(value).0 == "any"@ && (forall|i: int|
            0 <= i < front.len() ==> url_entry(#[trigger] front[i]).0 != platform) && (forall|i: int|
            0 <= i < rest.len() ==> url_entry(#[trigger] rest[i]).0 != platform),
    ensures
        info_of(front.push(value) + rest) matches Some(doc) && binary_for(doc, platform) == Ok::<
            Seq<char>,
            InfoError,
        >(url_entry(value).1),
        downloadable(info_of(front.push(value) + rest), platform),
{
    let all = front.push(value) + rest;
    last_url_for_a_platform_counts(front, value, rest);
    binaries_are_in_info(all);
    if url_entry(value).0 != platform {
        assert forall|i: int| 0 <= i < all.len() implies url_entry(#[trigger] all[i]).0
            != platform by {
            if i < front.len() {
                assert(all[i] == front[i]);
            } else if i > front.len() {
                assert(all[i] == rest[i - front.len() - 1]);
            }
        }
        no_key_without_a_value(all, platform);
    }
}

proof fn no_key_without_a_value(urls: Seq<Seq<char>>, platform: Seq<char>)
    requires
        forall|i: int| 0 <= i < urls.len() ==> url_entry(#[trigger] urls[i]).0 != platform,
    ensures
        !binaries_of(urls).contains_key(platform),
    decreases urls.len(),
{
    if urls.len() > 0 {
        let less = urls.drop_last();
        assert forall|i: int| 0 <= i < less.len() implies url_entry(#[trigger] less[i]).0
            != platform by {
            assert(less[i] == urls[i]);
        }
        no_key_without_a_value(less, platform);
        assert(url_entry(urls[urls.len() - 1]).0 != platform);
    }
}

/// A plan without URLs says nothing of downloads.
pub proof fn no_url_means_no_download(req: AddUpgrade<'_>, platform: Seq<char>)
    requires
        req.urls@.len() == 0,
    ensures
        plan_of(req).info is None,
        !downloadable(plan_of(req).info, platform),
{
}

/// A URL is accepted exactly if it can be split into a URL to download from and its checksum.
pub proof fn urls_are_accepted_if_they_can_be_split(
    raw: Seq<char>,
    r: Result<(String, Option<Checksum>), UrlError>,
)
    requires
        split_result(raw, r),
    ensures
        usable_url(raw) <==> r is Ok,
{
}

/// A plan that is added goes to the directory of its own name, with its binary below it; and
/// only where no binary is given it matters whether a URL matches this machine.
pub proof fn addition_goes_to_its_own_directory(
    a: Addition,
    req: AddUpgrade<'_>,
    layout: LayoutView,
    platform: Seq<char>,
)
    requires
        addition_of(a, req, layout, platform),
    ensures
        a.plan@ == plan_of(req),
        a.place.dir@ == layout.upgrade_dir(a.plan@.name),
        a.place.file@ == layout.plan_file(a.plan@.name),
        a.binary@ == layout.upgrade_bin(a.plan@.name),
        req.exe is Some ==> !a.no_match,
        req.exe is None ==> a.no_match == !downloadable(a.plan@.info, platform),
{
}

/// `status` reports on every plan, in order, under its own name and with its own triggers: as
/// applied exactly if it was, and with its binary as it was found.
pub proof fn status_reports_every_plan(
    layout: LayoutView,
    state: StateView,
    plans: Seq<UpgradePlan>,
    present: Seq<bool>,
    seen: Seen,
    platform: Seq<char>,
    i: int,
)
    requires
        0 <= i < plans.len(),
    ensures
        ({
            let report = report_of(layout, state, plans, present, seen, platform);
            let u = report.upgrades[i];
            &&& report.upgrades.len() == plans.len()
            &&& u.name == plans[i]@.name
            &&& u.height == plans[i]@.height
            &&& u.spec_version == plans[i]@.spec_version
            &&& u.trigger == plans[i]@.trigger_text()
            &&& u.applied <==> exists|k: int|
                #![trigger state.applied[k]]
                0 <= k < state.applied.len() && state.applied[k].name == plans[i]@.name
            &&& u.binary == layout.upgrade_bin(plans[i]@.name)
            &&& u.binary_present == present[i]
            &&& u.downloadable == downloadable(plans[i]@.info, platform)
        }),
{
    let name = plans[i]@.name;
    if state.names().to_set().contains(name) {
        let k = choose|k: int| 0 <= k < state.names().len() && state.names()[k] == name;
        assert(state.applied[k].name == name);
    }
    if exists|k: int|
        #![trigger state.applied[k]]
        0 <= k < state.applied.len() && state.applied[k].name == name {
        let k = choose|k: int|
            #![trigger state.applied[k]]
            0 <= k < state.applied.len() && state.applied[k].name == name;
        assert(state.names()[k] == name);
    }
}

/// `status` names the active version: once `current` was switched to an upgrade, that upgrade
/// and its binary; and nothing where `current` could not be looked at.
pub proof fn status_names_the_active_version(
    home: Seq<char>,
    daemon_name: Seq<char>,
    state: StateView,
    plans: Seq<UpgradePlan>,
    present: Seq<bool>,
    seen: Seen,
    platform: Seq<char>,
    name: Seq<char>,
)
    ensures
        ({
            let layout = LayoutView::of(home, daemon_name);
            let report = report_of(layout, state, plans, present, seen, platform);
            &&& report.home == layout.root
            &&& report.chain == seen.chain
            &&& !seen.link_known ==> report.current is None && report.current_binary is None
            &&& !seen.current_is_file ==> report.current_binary is None
            &&& valid_name(name) && seen.link_known && opt_text(seen.link) == Some(
                link_target(Some(name)),
            ) ==> report.current == Some(name) && (seen.current_is_file ==> report.current_binary
                == Some(layout.upgrade_bin(name)))
            &&& seen.link_known && seen.link is None ==> report.current == Some("genesis"@) && (
            seen.current_is_file ==> report.current_binary == Some(
                layout.bin_path(layout.genesis_dir()),
            ))
        }),
{
    if valid_name(name) {
        crate::layout::switch_is_read_back(home, daemon_name, name);
    }
    crate::layout::genesis_is_read_back(home, daemon_name);
}

/// Where the node answered, the line for the chain says what it answered, and which block that
/// is; what was last seen makes no difference.
pub proof fn live_status_is_shown(
    c: ChainStatus,
    observed: Option<ObservedView>,
    other: Option<ObservedView>,
    url: Seq<char>,
    other_url: Seq<char>,
)
    ensures
        chain_line(Some(c), observed, Finality::Best, url) == chain_line(
            Some(c),
            other,
            Finality::Best,
            other_url,
        ),
        chain_line(Some(c), observed, Finality::Best, url) == "chain:    height "@ + text::decimal(
            c.height as nat,
        ) + " spec_version "@ + text::decimal(c.spec_version as nat) + " (live, best block)"@,
        chain_line(Some(c), observed, Finality::Finalized, url) == "chain:    height "@
            + text::decimal(c.height as nat) + " spec_version "@ + text::decimal(
            c.spec_version as nat,
        ) + " (live, finalized block)"@,
{
    let front = "chain:    height "@ + text::decimal(c.height as nat) + " spec_version "@
        + text::decimal(c.spec_version as nat);
    reveal_strlit(" (live, ");
    reveal_strlit("best");
    reveal_strlit("finalized");
    reveal_strlit(" block)");
    reveal_strlit(" (live, best block)");
    reveal_strlit(" (live, finalized block)");
    assert(" (live, "@ + "best"@ + " block)"@ =~= " (live, best block)"@);
    assert(" (live, "@ + "finalized"@ + " block)"@ =~= " (live, finalized block)"@);
    assert(front + " (live, "@ + "best"@ + " block)"@ =~= front + " (live, best block)"@);
    assert(front + " (live, "@ + "finalized"@ + " block)"@ =~= front
        + " (live, finalized block)"@);
}

/// Where the node did not answer, the line for the chain says so, and at which URL; it shows
/// what was last seen, and when, if anything was.
pub proof fn last_observation_is_shown_without_an_answer(
    o: ObservedView,
    finality: Finality,
    url: Seq<char>,
)
    ensures
        ("chain:    height "@ + text::decimal(o.status.height as nat) + " spec_version "@
            + text::decimal(o.status.spec_version as nat) + " (last observed "@
            + o.observed_at).is_prefix_of(chain_line(None, Some(o), finality, url)),
        (url + " unreachable)"@).is_suffix_of(chain_line(None, Some(o), finality, url)),
        (url + " unreachable)"@).is_suffix_of(chain_line(None, None, finality, url)),
        "chain:    unknown"@.is_prefix_of(chain_line(None, None, finality, url)),
{
    let front = "chain:    height "@ + text::decimal(o.status.height as nat) + " spec_version "@
        + text::decimal(o.status.spec_version as nat) + " (last observed "@ + o.observed_at;
    let seen = chain_line(None, Some(o), finality, url);
    let back = url + " unreachable)"@;
    assert(seen =~= front + ("; RPC "@ + url + " unreachable)"@));
    assert(seen.subrange(0, front.len() as int) =~= front);
    assert(seen.subrange(seen.len() - back.len(), seen.len() as int) =~= back);
    let none = chain_line(None, None, finality, url);
    reveal_strlit("chain:    unknown");
    reveal_strlit("chain:    unknown (RPC ");
    assert(none.subrange(none.len() - back.len(), none.len() as int) =~= back);
    assert(none.subrange(0, "chain:    unknown"@.len() as int) =~= "chain:    unknown"@);
}

/// The line for a plan starts with its name, says whether it was applied, and ends in how its
/// binary stands: a file that is there is all right, one that is not may be downloadable, and
/// is else missing.
pub proof fn plan_lines_tell_the_standing(u: UpgradeView)
    ensures
        ("  "@ + u.name).is_prefix_of(upgrade_line(u)),
        u.binary_present ==> "binary ok"@.is_suffix_of(upgrade_line(u)),
        !u.binary_present && u.downloadable ==> "binary downloadable"@.is_suffix_of(
            upgrade_line(u),
        ),
        !u.binary_present && !u.downloadable ==> "BINARY MISSING"@.is_suffix_of(upgrade_line(u)),
        u.applied ==> upgrade_line(u) == "  "@ + text::padded(u.name, 24) + " applied  "@
            + text::padded(u.trigger, 40) + " "@ + binary_says(u),
        !u.applied ==> upgrade_line(u) == "  "@ + text::padded(u.name, 24) + " pending  "@
            + text::padded(u.trigger, 40) + " "@ + binary_says(u),
{
    let line = upgrade_line(u);
    let words = binary_says(u);
    reveal_strlit("applied");
    reveal_strlit("pending");
    reveal_strlit(" applied  ");
    reveal_strlit(" pending  ");
    reveal_strlit(" ");
    reveal_strlit("  ");
    crate::laws::text::padding_is_blank(u.name, 24);
    let start = "  "@ + u.name;
    assert(text::padded(u.name, 24).subrange(0, u.name.len() as int) =~= u.name);
    assert forall|k: int| 0 <= k < u.name.len() implies text::padded(u.name, 24)[k]
        == u.name[k] by {
        assert(text::padded(u.name, 24).subrange(0, u.name.len() as int)[k] == u.name[k]);
    }
    assert(line.subrange(0, start.len() as int) =~= start);
    assert(line.subrange(line.len() - words.len(), line.len() as int) =~= words);
    crate::laws::text::padding_is_blank("applied"@, 8);
    crate::laws::text::padding_is_blank("pending"@, 8);
    assert(" "@ + text::padded("applied"@, 8) + " "@ =~= " applied  "@);
    assert(" "@ + text::padded("pending"@, 8) + " "@ =~= " pending  "@);
    let tail = text::padded(u.trigger, 40) + " "@ + words;
    let head = "  "@ + text::padded(u.name, 24);
    if u.applied {
        assert(line =~= head + (" "@ + text::padded("applied"@, 8) + " "@) + tail);
        assert(head + " applied  "@ + text::padded(u.trigger, 40) + " "@ + words =~= head
            + " applied  "@ + tail);
    } else {
        assert(line =~= head + (" "@ + text::padded("pending"@, 8) + " "@) + tail);
        assert(head + " pending  "@ + text::padded(u.trigger, 40) + " "@ + words =~= head
            + " pending  "@ + tail);
    }
}

/// How the binary of a plan stands, in words.
pub open spec fn binary_says(u: UpgradeView) -> Seq<char> {
    match (u.binary_present, u.downloadable) {
        (true, _) => "binary ok"@,
        (false, true) => "binary downloadable"@,
        (false, false) => "BINARY MISSING"@,
    }
}

/// `status` prints the home, the active version and the chain, in this order, and then a line
/// for every plan, in order.
pub proof fn status_prints_a_line_for_every_plan(
    r: ReportView,
    observed: Option<ObservedView>,
    finality: Finality,
    url: Seq<char>,
)
    ensures
        ({
            let lines = report_lines(r, observed, finality, url);
            &&& lines[0] == "home:     "@ + r.home
            &&& r.current matches Some(name) ==> lines[1] == "current:  "@ + name
            &&& r.current is None ==> lines[1] == "current:  ?"@
            &&& lines[2] == chain_line(r.chain, observed, finality, url)
            &&& r.upgrades.len() == 0 ==> lines.len() == 4 && lines[3]
                == "upgrades: none registered"@
            &&& r.upgrades.len() > 0 ==> lines.len() == 4 + r.upgrades.len() && lines[3]
                == "upgrades:"@
            &&& forall|i: int|
                0 <= i < r.upgrades.len() ==> #[trigger] lines[4 + i] == upgrade_line(r.upgrades[i])
        }),
{
    reveal_strlit("current:  ");
    reveal_strlit("?");
    reveal_strlit("current:  ?");
    assert("current:  "@ + "?"@ =~= "current:  ?"@);
}

/// The JSON of a chain status has its height and its version; without a status it is null.
pub proof fn chain_in_json(c: ChainStatus)
    ensures
        chain_json(Some(c)).at("height"@) matches Some(JsonView::Number(n)) && text::natural(n)
            == Some(c.height as nat),
        chain_json(Some(c)).at("spec_version"@) matches Some(JsonView::Number(n)) && text::natural(
            n,
        ) == Some(c.spec_version as nat),
        chain_json(None) == JsonView::Null,
{
    reveal_strlit("height");
    reveal_strlit("spec_version");
    assert("height"@.len() == 6 && "spec_version"@.len() == 12);
    text::decimal_is_read_back(c.height as nat);
    text::decimal_is_read_back(c.spec_version as nat);
}

/// The JSON of what was last seen has the status and the time; without one it is null.
pub proof fn observation_in_json(o: ObservedView)
    ensures
        observed_json(Some(o)).at("height"@) == chain_json(Some(o.status)).at("height"@),
        observed_json(Some(o)).at("spec_version"@) == chain_json(Some(o.status)).at(
            "spec_version"@,
        ),
        observed_json(Some(o)).at("observed_at"@) == Some(JsonView::Text(o.observed_at)),
        observed_json(None) == JsonView::Null,
{
    reveal_strlit("height");
    reveal_strlit("spec_version");
    reveal_strlit("observed_at");
    assert("height"@.len() == 6 && "spec_version"@.len() == 12 && "observed_at"@.len() == 11);
}

/// The JSON of an applied upgrade has its name, the time, and the status at which it was
/// applied, where that is known.
pub proof fn applied_upgrade_in_json(a: AppliedView)
    ensures
        applied_json(a).at("name"@) == Some(JsonView::Text(a.name)),
        applied_json(a).at("applied_at"@) == Some(JsonView::Text(a.applied_at)),
        a.observed is None ==> applied_json(a).at("observed"@) is None,
        a.observed is Some ==> applied_json(a).at("observed"@) == Some(chain_json(a.observed)),
{
    reveal_strlit("name");
    reveal_strlit("applied_at");
    reveal_strlit("observed");
    assert("name"@.len() == 4 && "applied_at"@.len() == 10 && "observed"@.len() == 8);
}

/// The JSON of a plan says what the plan's line says, field by field.
pub proof fn plan_in_json(u: UpgradeView)
    ensures
        upgrade_json(u).at("name"@) == Some(JsonView::Text(u.name)),
        upgrade_json(u).at("trigger"@) == Some(JsonView::Text(u.trigger)),
        u.height matches Some(h) ==> (upgrade_json(u).at("height"@) matches Some(
            JsonView::Number(n),
        ) && text::natural(n) == Some(h as nat)),
        u.height is None ==> upgrade_json(u).at("height"@) == Some(JsonView::Null),
        u.spec_version matches Some(v) ==> (upgrade_json(u).at("spec_version"@) matches Some(
            JsonView::Number(n),
        ) && text::natural(n) == Some(v as nat)),
        u.spec_version is None ==> upgrade_json(u).at("spec_version"@) == Some(JsonView::Null),
        u.applied ==> upgrade_json(u).at("status"@) == Some(JsonView::Text("applied"@)),
        !u.applied ==> upgrade_json(u).at("status"@) == Some(JsonView::Text("pending"@)),
        upgrade_json(u).at("binary"@) == Some(JsonView::Text(u.binary)),
        upgrade_json(u).at("binary_present"@) == Some(JsonView::Bool(u.binary_present)),
        upgrade_json(u).at("downloadable"@) == Some(JsonView::Bool(u.downloadable)),
{
    reveal_strlit("name");
    reveal_strlit("trigger");
    reveal_strlit("height");
    reveal_strlit("spec_version");
    reveal_strlit("status");
    reveal_strlit("binary");
    reveal_strlit("binary_present");
    reveal_strlit("downloadable");
    assert("name"@.len() == 4 && "trigger"@.len() == 7 && "binary_present"@.len() == 14);
    assert("height"@.len() == 6 && "status"@.len() == 6 && "binary"@.len() == 6);
    assert("height"@[0] == 'h' && "status"@[0] == 's' && "binary"@[0] == 'b');
    assert("spec_version"@.len() == 12 && "downloadable"@.len() == 12);
    assert("spec_version"@[0] == 's' && "downloadable"@[0] == 'd');
    if let Some(h) = u.height {
        text::decimal_is_read_back(h as nat);
    }
    if let Some(v) = u.spec_version {
        text::decimal_is_read_back(v as nat);
    }
}

/// `status --json` says what `status` found: the same home, version, binary and chain, what was
/// last seen and applied, and every plan, in order.
pub proof fn report_in_json(r: ReportView, state: StateView)
    ensures
        ({
            let doc = report_json(r, state);
            &&& doc.at("home"@) == Some(JsonView::Text(r.home))
            &&& r.current matches Some(name) ==> doc.at("current"@) == Some(JsonView::Text(name))
            &&& r.current is None ==> doc.at("current"@) == Some(JsonView::Null)
            &&& r.current_binary matches Some(bin) ==> doc.at("current_binary"@) == Some(
                JsonView::Text(bin),
            )
            &&& r.current_binary is None ==> doc.at("current_binary"@) == Some(JsonView::Null)
            &&& doc.at("chain"@) == Some(chain_json(r.chain))
            &&& doc.at("last_observed"@) == Some(observed_json(state.last_observed))
            &&& doc.at("applied"@) matches Some(JsonView::Array(applied)) && applied.len()
                == state.applied.len() && forall|i: int|
                0 <= i < applied.len() ==> #[trigger] applied[i] == applied_json(state.applied[i])
            &&& doc.at("upgrades"@) matches Some(JsonView::Array(upgrades)) && upgrades.len()
                == r.upgrades.len() && forall|i: int|
                0 <= i < upgrades.len() ==> #[trigger] upgrades[i] == upgrade_json(r.upgrades[i])
        }),
{
    reveal_strlit("home");
    reveal_strlit("current");
    reveal_strlit("current_binary");
    reveal_strlit("chain");
    reveal_strlit("last_observed");
    reveal_strlit("applied");
    reveal_strlit("upgrades");
    assert("home"@.len() == 4 && "current_binary"@.len() == 14 && "chain"@.len() == 5);
    assert("last_observed"@.len() == 13 && "upgrades"@.len() == 8);
    assert("current"@.len() == 7 && "applied"@.len() == 7);
    assert("current"@[0] == 'c' && "applied"@[0] == 'a');
}

/// `prepare-upgrade` goes through the plans in order: what it makes ready of two lists, one
/// behind the other, is what it makes ready of each.
pub proof fn pending_plans_keep_their_order(
    a: Seq<PlanView>,
    b: Seq<PlanView>,
    applied: Set<Seq<char>>,
)
    ensures
        pending_plans(a + b, applied) == pending_plans(a, applied) + pending_plans(b, applied),
    decreases b.len(),
{
    if b.len() == 0 {
        assert(a + b =~= a);
        assert(pending_plans(a, applied) + Seq::<PlanView>::empty() =~= pending_plans(a, applied));
    } else {
        pending_plans_keep_their_order(a, b.drop_last(), applied);
        assert((a + b).drop_last() =~= a + b.drop_last());
        assert((a + b).last() == b.last());
        assert(pending_plans(a + b, applied) =~= pending_plans(a, applied) + pending_plans(
            b,
            applied,
        ));
    }
}

/// A plan that was not applied is made ready, and one that was is passed over.
pub proof fn applied_plans_are_passed_over(plan: PlanView, applied: Set<Seq<char>>)
    ensures
        applied.contains(plan.name) ==> pending_plans(seq![plan], applied) == Seq::<
            PlanView,
        >::empty(),
        !applied.contains(plan.name) ==> pending_plans(seq![plan], applied) == seq![plan],
{
    assert(seq![plan].drop_last() =~= Seq::<PlanView>::empty());
    assert(pending_plans(Seq::empty(), applied) =~= Seq::<PlanView>::empty());
    assert(Seq::<PlanView>::empty().push(plan) =~= seq![plan]);
}

/// `prepare-upgrade` succeeds exactly if every pending upgrade is ready.
pub proof fn all_have_to_be_ready(ready: Seq<bool>)
    ensures
        count_false(ready) == 0 <==> forall|i: int| 0 <= i < ready.len() ==> #[trigger] ready[i],
        count_false(ready) <= ready.len(),
        count_false(ready) == ready.len() <==> forall|i: int|
            0 <= i < ready.len() ==> !(#[trigger] ready[i]),
    decreases ready.len(),
{
    if ready.len() > 0 {
        let front = ready.drop_last();
        all_have_to_be_ready(front);
        assert forall|i: int| 0 <= i < front.len() implies #[trigger] ready[i] == front[i] by {}
        assert(ready.last() == ready[ready.len() - 1]);
        if forall|i: int| 0 <= i < front.len() ==> #[trigger] front[i] {
            assert(forall|i: int| 0 <= i < front.len() ==> #[trigger] ready[i]);
        } else {
            let k = choose|k: int| 0 <= k < front.len() && !(#[trigger] front[k]);
            assert(!ready[k]);
        }
        if forall|i: int| 0 <= i < front.len() ==> !(#[trigger] front[i]) {
            assert(forall|i: int| 0 <= i < front.len() ==> !(#[trigger] ready[i]));
        } else {
            let k = choose|k: int| 0 <= k < front.len() && #[trigger] front[k];
            assert(ready[k]);
        }
    }
}

/// The number of those that are not ready adds up.
pub proof fn failures_add_up(a: Seq<bool>, b: Seq<bool>)
    ensures
        count_false(a + b) == count_false(a) + count_false(b),
    decreases b.len(),
{
    if b.len() == 0 {
        assert(a + b =~= a);
    } else {
        failures_add_up(a, b.drop_last());
        assert((a + b).drop_last() =~= a + b.drop_last());
        assert((a + b).last() == b.last());
    }
}

/// Of several things that are wrong with a request, the first is told: the name, an upgrade
/// that was applied, a plan that is there, the triggers, and then the binary.
pub proof fn first_fault_of_a_request_is_told(
    req: AddUpgrade<'_>,
    applied: Set<Seq<char>>,
    plan_exists: bool,
)
    ensures
        ({
            let named = normal_name(req.name@) is Some;
            let fresh = named && !applied.contains(normal_name(req.name@)->0);
            let free = fresh && (req.force || !plan_exists);
            let one = free && !(req.immediate && req.height is Some);
            let some = one && (req.immediate || req.height is Some || req.spec_version is Some);
            let fault = add_fault(req, applied, plan_exists);
            &&& !named <==> fault == Some(AddFault::Name(PlanError::InvalidName))
            &&& named && !fresh <==> fault == Some(AddFault::Applied)
            &&& fresh && !free <==> fault == Some(AddFault::Exists)
            &&& free && !one <==> fault == Some(AddFault::TwoTriggers)
            &&& one && !some <==> fault == Some(AddFault::NoTrigger)
            &&& some && req.exe is None && req.urls@.len() == 0 <==> fault == Some(
                AddFault::NoBinary,
            )
        }),
{
}

} // verus!
