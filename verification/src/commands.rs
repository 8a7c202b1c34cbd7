//! What the subcommands other than `run` decide.

use vstd::prelude::*;

use crate::config::{opt_text, Config, Finality};
use crate::download::{
    downloadable, has_download_info, query_pairs, split_checksum, split_result, sum_in,
    supported_scheme, url_parts, UrlError,
};
use crate::json::{meanings, meanings_grow, Json, JsonView};
use crate::layout::{Layout, LayoutView, PlanPlace};
use crate::plan;
use crate::plan::{normal_name, ChainStatus, PlanError, PlanView, UpgradePlan};
use crate::state::{AppliedUpgrade, AppliedView, Observed, ObservedView, State, StateView};
use crate::supervisor::{prepare_binary, prepared, Preparation, PrepareError};
use crate::text;

verus! {

/// A step of `init`.
#[derive(Debug)]
pub enum InitStep {
    /// Make the directory at this path, and those above it.
    MakeDir(String),
    /// Warn that the binary at this path is overwritten.
    Overwrites(String),
    /// Install the binary at this path.
    Install(String),
    /// Point `current` to `genesis`.
    PointToGenesis,
    /// Write the state of a fresh installation to this file.
    SaveState(String),
}

/// A step of `init`.
pub enum InitView {
    MakeDir(Seq<char>),
    Overwrites(Seq<char>),
    Install(Seq<char>),
    PointToGenesis,
    SaveState(Seq<char>),
}

impl View for InitStep {
    type V = InitView;

    open spec fn view(&self) -> InitView {
        match *self {
            InitStep::MakeDir(p) => InitView::MakeDir(p@),
            InitStep::Overwrites(p) => InitView::Overwrites(p@),
            InitStep::Install(p) => InitView::Install(p@),
            InitStep::PointToGenesis => InitView::PointToGenesis,
            InitStep::SaveState(p) => InitView::SaveState(p@),
        }
    }
}

/// What is there before `init`.
#[derive(Debug, Clone, Copy, PartialEq, Eq, Structural)]
pub struct InitSeen {
    /// Something is at the place of the genesis binary.
    pub binary: bool,
    /// `current` is there, wherever it leads.
    pub link: bool,
    /// The state file is there.
    pub state: bool,
}

/// `step`, where `wanted`.
pub open spec fn step_if(wanted: bool, step: InitView) -> Seq<InitView> {
    if wanted {
        seq![step]
    } else {
        Seq::empty()
    }
}

/// The steps of `init`: the binary is installed in any case, while a link and a state
/// that are there stay as they are.
pub open spec fn init_steps(layout: LayoutView, seen: InitSeen) -> Seq<InitView> {
    let dest = layout.bin_path(layout.genesis_dir());
    seq![InitView::MakeDir(layout.upgrades_dir())] + step_if(
        seen.binary,
        InitView::Overwrites(dest),
    ) + seq![InitView::Install(dest)] + step_if(!seen.link, InitView::PointToGenesis) + step_if(
        !seen.state,
        InitView::SaveState(layout.state_file()),
    )
}

/// The views of a list of steps.
pub open spec fn init_views(steps: Seq<InitStep>) -> Seq<InitView> {
    steps.map_values(|s: InitStep| s@)
}

/// The layout that a configuration leads to.
pub open spec fn layout_of(cfg: Config) -> LayoutView {
    LayoutView::of(cfg.home@, cfg.name@)
}

/// `init <path>`: create the layout and install the genesis binary.
pub fn init(cfg: &Config, seen: InitSeen) -> (r: Vec<InitStep>)
    ensures
        init_views(r@) == init_steps(layout_of(*cfg), seen),
{
    let layout = Layout::new(cfg.home.as_str(), cfg.name.as_str());
    let mut r: Vec<InitStep> = Vec::new();
    r.push(InitStep::MakeDir(layout.upgrades_dir()));
    if seen.binary {
        r.push(InitStep::Overwrites(layout.bin_path(layout.genesis_dir().as_str())));
    }
    r.push(InitStep::Install(layout.bin_path(layout.genesis_dir().as_str())));
    if !seen.link {
        r.push(InitStep::PointToGenesis);
    }
    if !seen.state {
        r.push(InitStep::SaveState(layout.state_file()));
    }
    assert(init_views(r@) =~= init_steps(layout_of(*cfg), seen));
    r
}

/// What `add-upgrade` is asked for.
#[derive(Debug)]
pub struct AddUpgrade<'a> {
    pub name: &'a str,
    pub exe: Option<&'a str>,
    pub height: Option<u64>,
    pub spec_version: Option<u32>,
    pub immediate: bool,
    pub urls: &'a [String],
    pub force: bool,
}

/// Why no plan is added.
#[derive(Debug)]
pub enum AddError {
    Name(PlanError),
    /// The upgrade has already been applied.
    Applied,
    /// There is a plan of that name, and it is not to be overwritten.
    Exists,
    /// The upgrade is to be immediate and to wait for a height.
    TwoTriggers,
    NoTrigger,
    /// There is neither a binary nor a URL to get it from.
    NoBinary,
    /// The URL with this index cannot be downloaded from.
    Url(usize, UrlError),
}

/// Why no plan is added, but for the URLs.
pub enum AddFault {
    Name(PlanError),
    Applied,
    Exists,
    TwoTriggers,
    NoTrigger,
    NoBinary,
}

/// `e` says of a request what `f` says.
pub open spec fn says(e: AddError, f: AddFault) -> bool {
    match f {
        AddFault::Name(p) => e matches AddError::Name(q) && p == q,
        AddFault::Applied => e is Applied,
        AddFault::Exists => e is Exists,
        AddFault::TwoTriggers => e is TwoTriggers,
        AddFault::NoTrigger => e is NoTrigger,
        AddFault::NoBinary => e is NoBinary,
    }
}

/// What is wrong with a request, but for the URLs: the first fault, in the order in which
/// they are looked at.
pub open spec fn add_fault(
    req: AddUpgrade<'_>,
    applied: Set<Seq<char>>,
    plan_exists: bool,
) -> Option<AddFault> {
    match normal_name(req.name@) {
        None => Some(AddFault::Name(PlanError::InvalidName)),
        Some(name) => if applied.contains(name) {
            Some(AddFault::Applied)
        } else if plan_exists && !req.force {
            Some(AddFault::Exists)
        } else if req.immediate && req.height is Some {
            Some(AddFault::TwoTriggers)
        } else if !req.immediate && req.height is None && req.spec_version is None {
            Some(AddFault::NoTrigger)
        } else if req.exe is None && req.urls@.len() == 0 {
            Some(AddFault::NoBinary)
        } else {
            None
        },
    }
}

/// The platform that a `--url` value is for, and the URL. Only what stands before the
/// first `=` can be a platform, and only where it looks like one: the first `=` of a bare
/// URL is in its query.
pub open spec fn url_entry(u: Seq<char>) -> (Seq<char>, Seq<char>) {
    match text::cut(u, '=') {
        Some((key, url)) => if !key.contains(':') && (key.contains('/') || key == "any"@) {
            (key, url)
        } else {
            ("any"@, u)
        },
        None => ("any"@, u),
    }
}

/// The binaries that `--url` values name; of several for one platform the last counts.
pub open spec fn binaries_of(urls: Seq<Seq<char>>) -> Map<Seq<char>, JsonView>
    decreases urls.len(),
{
    if urls.len() == 0 {
        Map::empty()
    } else {
        let (key, url) = url_entry(urls.last());
        binaries_of(urls.drop_last()).insert(key, JsonView::Text(url))
    }
}

/// The download instructions of a plan with these `--url` values.
pub open spec fn info_of(urls: Seq<Seq<char>>) -> Option<JsonView> {
    if urls.len() == 0 {
        None
    } else {
        Some(JsonView::Object(map!["binaries"@ => JsonView::Object(binaries_of(urls))]))
    }
}

/// The plan that a request asks for.
pub open spec fn plan_of(req: AddUpgrade<'_>) -> PlanView {
    PlanView {
        name: text::lower(text::trimmed(req.name@)),
        height: if req.immediate {
            Some(0u64)
        } else {
            req.height
        },
        spec_version: req.spec_version,
        info: info_of(text::texts(req.urls@)),
    }
}

/// A URL that can be downloaded from.
pub open spec fn usable_url(raw: Seq<char>) -> bool {
    url_parts(raw) matches Some(u) && supported_scheme(u.scheme) && sum_in(
        query_pairs(u.query_text()),
    ) is Ok
}

/// The first `--url` value whose URL cannot be downloaded from.
pub open spec fn is_first_bad_url(urls: Seq<Seq<char>>, i: int) -> bool {
    &&& 0 <= i < urls.len()
    &&& !usable_url(url_entry(urls[i]).1)
    &&& forall|j: int| 0 <= j < i ==> usable_url(url_entry(#[trigger] urls[j]).1)
}

/// All URLs of these `--url` values can be downloaded from.
pub open spec fn all_usable(urls: Seq<Seq<char>>) -> bool {
    forall|j: int| 0 <= j < urls.len() ==> usable_url(url_entry(#[trigger] urls[j]).1)
}

/// The platform that a `--url` value is for, and the URL.
pub fn split_url_entry(u: &str) -> (r: (String, String))
    ensures
        (r.0@, r.1@) == url_entry(u@),
{
    if let Some((key, url)) = text::split_once(u, '=') {
        if !text::has_char(key.as_str(), ':') && (text::has_char(key.as_str(), '/') || text::same(
            key.as_str(),
            "any",
        )) {
            return (key, url);
        }
    }
    ("any".to_string(), u.to_string())
}

/// The download instructions that `--url` values make up.
fn make_info(urls: &[String]) -> (r: Option<Json>)
    ensures
        (match r {
            Some(doc) => Some(doc@),
            None => None,
        }) == info_of(text::texts(urls@)),
{
    if urls.len() == 0 {
        return None;
    }
    let mut binaries = Json::object();
    let ghost all = text::texts(urls@);
    let mut i: usize = 0;
    while i < urls.len()
        invariant
            i <= urls@.len(),
            all == text::texts(urls@),
            binaries@ == JsonView::Object(binaries_of(all.take(i as int))),
        decreases urls@.len() - i,
    {
        proof {
            assert(all.take(i + 1).drop_last() == all.take(i as int));
            assert(all.take(i + 1).last() == urls@[i as int]@);
        }
        let (key, url) = split_url_entry(urls[i].as_str());
        binaries = binaries.with(key.as_str(), Json::Text(url));
        i = i + 1;
    }
    assert(all.take(all.len() as int) == all);
    let doc = Json::object().with("binaries", binaries);
    assert(doc@ == JsonView::Object(map!["binaries"@ => JsonView::Object(binaries_of(all))]));
    Some(doc)
}

/// The plan that a request asks for, whatever its URLs are. `plan_exists` says whether
/// there is a plan of that name.
pub fn plan_upgrade(req: &AddUpgrade<'_>, state: &State, plan_exists: bool) -> (r: Result<
    UpgradePlan,
    AddError,
>)
    ensures
        match add_fault(*req, state@.names().to_set(), plan_exists) {
            Some(f) => r matches Err(e) && says(e, f),
            None => r matches Ok(p) && p@ == plan_of(*req) && p@.fault() is None,
        },
{
    let name = match plan::normalize_name(req.name) {
        Ok(name) => name,
        Err(e) => return Err(AddError::Name(e)),
    };
    if plan::contains_name(&state.applied_names(), name.as_str()) {
        return Err(AddError::Applied);
    }
    if plan_exists && !req.force {
        return Err(AddError::Exists);
    }
    if req.immediate && req.height.is_some() {
        return Err(AddError::TwoTriggers);
    }
    let height: Option<u64> = if req.immediate {
        Some(0)
    } else {
        req.height
    };
    if height.is_none() && req.spec_version.is_none() {
        return Err(AddError::NoTrigger);
    }
    if req.exe.is_none() && req.urls.len() == 0 {
        return Err(AddError::NoBinary);
    }
    Ok(
        UpgradePlan {
            name,
            height,
            spec_version: req.spec_version,
            info: make_info(req.urls),
        },
    )
}

/// Check that all URLs of `--url` values can be downloaded from.
fn check_urls(urls: &[String]) -> (r: Result<(), AddError>)
    ensures
        match r {
            Ok(()) => all_usable(text::texts(urls@)),
            Err(AddError::Url(i, e)) => is_first_bad_url(text::texts(urls@), i as int)
                && split_result(url_entry(urls@[i as int]@).1, Err(e)),
            Err(_) => false,
        },
{
    let ghost all = text::texts(urls@);
    let mut i: usize = 0;
    while i < urls.len()
        invariant
            i <= urls@.len(),
            all == text::texts(urls@),
            forall|j: int| 0 <= j < i ==> usable_url(url_entry(#[trigger] all[j]).1),
        decreases urls@.len() - i,
    {
        let (_, url) = split_url_entry(urls[i].as_str());
        assert(all[i as int] == urls@[i as int]@);
        match split_checksum(url.as_str()) {
            Ok(_) => {},
            Err(e) => return Err(AddError::Url(i, e)),
        }
        i = i + 1;
    }
    Ok(())
}

/// A plan to add.
#[derive(Debug)]
pub struct Addition {
    pub plan: UpgradePlan,
    /// Where its binary goes, where one is given.
    pub binary: String,
    /// No binary is given, and none of the URLs matches this machine.
    pub no_match: bool,
    /// Where the plan goes.
    pub place: PlanPlace,
}

/// `a` is what to do for a request that was accepted.
pub open spec fn addition_of(
    a: Addition,
    req: AddUpgrade<'_>,
    layout: LayoutView,
    platform: Seq<char>,
) -> bool {
    let p = plan_of(req);
    &&& a.plan@ == p
    &&& a.binary@ == layout.upgrade_bin(p.name)
    &&& a.no_match == (req.exe is None && !downloadable(p.info, platform))
    &&& a.place.dir@ == layout.upgrade_dir(p.name)
    &&& a.place.file@ == layout.plan_file(p.name)
}

/// `add-upgrade`: register a plan and (optionally) install its binary. `plan_exists` says
/// whether there is a plan of that name.
pub fn add_upgrade(
    cfg: &Config,
    req: &AddUpgrade<'_>,
    state: &State,
    plan_exists: bool,
    platform: &str,
) -> (r: Result<Addition, AddError>)
    ensures
        match add_fault(*req, state@.names().to_set(), plan_exists) {
            Some(f) => r matches Err(e) && says(e, f),
            None => match r {
                Ok(a) => all_usable(text::texts(req.urls@)) && addition_of(
                    a,
                    *req,
                    layout_of(*cfg),
                    platform@,
                ),
                Err(AddError::Url(i, e)) => is_first_bad_url(text::texts(req.urls@), i as int)
                    && split_result(url_entry(req.urls@[i as int]@).1, Err(e)),
                Err(_) => false,
            },
        },
{
    let plan = match plan_upgrade(req, state, plan_exists) {
        Ok(p) => p,
        Err(e) => return Err(e),
    };
    match check_urls(req.urls) {
        Ok(()) => {},
        Err(e) => return Err(e),
    }
    let layout = Layout::new(cfg.home.as_str(), cfg.name.as_str());
    let no_match = req.exe.is_none() && !has_download_info(plan.info.as_ref(), platform);
    let binary = layout.upgrade_bin(plan.name.as_str());
    match layout.save_plan(&plan) {
        Ok(place) => Ok(Addition { plan, binary, no_match, place }),
        Err(e) => Err(AddError::Name(e)),
    }
}

/// A plan that was accepted is one that is kept where it is put: it is valid, and its
/// directory is called by its name.
pub proof fn added_plan_is_kept(
    req: AddUpgrade<'_>,
    applied: Set<Seq<char>>,
    plan_exists: bool,
)
    requires
        add_fault(req, applied, plan_exists) is None,
    ensures
        crate::layout::verdict(plan_of(req).name, plan_of(req)) == crate::layout::Verdict::Kept,
        !applied.contains(plan_of(req).name),
{
}

/// An immediate upgrade is due as soon as anything is seen of the chain.
pub proof fn immediate_upgrade_is_due(
    req: AddUpgrade<'_>,
    applied: Set<Seq<char>>,
    plan_exists: bool,
    status: ChainStatus,
)
    requires
        req.immediate,
        add_fault(req, applied, plan_exists) is None,
    ensures
        plan_of(req).due(applied, status),
{
}

proof fn first_place_is_first(s: Seq<char>, c: char, from: int, i: int)
    requires
        0 <= from <= i < s.len(),
        s[i] == c,
        forall|j: int| from <= j < i ==> s[j] != c,
    ensures
        text::first_place(s, c, from) == Some(i),
    decreases i - from,
{
    if from < i {
        first_place_is_first(s, c, from + 1, i);
    }
}

/// A `--url` value `<os>/<arch>=<url>`, or `any=<url>`, is for that platform, whatever the
/// URL holds.
pub proof fn platform_is_split_off(key: Seq<char>, url: Seq<char>)
    requires
        !key.contains('='),
        !key.contains(':'),
        key.contains('/') || key == "any"@,
    ensures
        url_entry(key.push('=') + url) == (key, url),
{
    let u = key.push('=') + url;
    assert forall|j: int| 0 <= j < key.len() implies u[j] != '=' by {
        assert(key.contains(key[j]));
    }
    first_place_is_first(u, '=', 0, key.len() as int);
    assert(u.subrange(0, key.len() as int) =~= key);
    assert(u.subrange(key.len() as int + 1, u.len() as int) =~= url);
}

/// A `--url` value that is a bare URL, with its scheme's colon before any `=`, is for any
/// platform and stays whole.
pub proof fn bare_url_is_for_any(scheme: Seq<char>, rest: Seq<char>)
    requires
        !scheme.contains('='),
    ensures
        url_entry(scheme.push(':') + rest) == ("any"@, scheme.push(':') + rest),
{
    let u = scheme.push(':') + rest;
    if let Some((key, url)) = text::cut(u, '=') {
        let i = text::first_place(u, '=', 0)->0;
        first_place_holds(u, '=', 0);
        if i <= scheme.len() {
            if i < scheme.len() {
                assert(scheme[i] == '=');
            }
            assert(false);
        }
        assert(key[scheme.len() as int] == ':');
        assert(key.contains(':'));
    }
}

proof fn first_place_holds(s: Seq<char>, c: char, from: int)
    requires
        from >= 0,
    ensures
        text::first_place(s, c, from) matches Some(i) ==> from <= i < s.len() && s[i] == c,
    decreases s.len() - from,
{
    if from < s.len() && s[from] != c {
        first_place_holds(s, c, from + 1);
    }
}

/// The name of a finality.
pub open spec fn finality_text(finality: Finality) -> Seq<char> {
    match finality {
        Finality::Best => "best"@,
        Finality::Finalized => "finalized"@,
    }
}

pub fn finality_name(cfg: &Config) -> (r: &'static str)
    ensures
        r@ == finality_text(cfg.finality),
{
    match cfg.finality {
        Finality::Best => "best",
        Finality::Finalized => "finalized",
    }
}

/// What `status` found beside the plans and the state.
#[derive(Debug)]
pub struct Seen {
    /// What `current` holds; none where it is not there.
    pub link: Option<String>,
    /// Whether `current` could be looked at.
    pub link_known: bool,
    /// Whether there is a file at the active version's binary.
    pub current_is_file: bool,
    /// What the node says of the chain, where it was asked and answered.
    pub chain: Option<ChainStatus>,
}

/// What `status` says of a plan.
#[derive(Debug)]
pub struct UpgradeReport {
    pub name: String,
    pub trigger: String,
    pub height: Option<u64>,
    pub spec_version: Option<u32>,
    pub applied: bool,
    pub binary: String,
    pub binary_present: bool,
    pub downloadable: bool,
}

/// What `status` says of a plan.
pub struct UpgradeView {
    pub name: Seq<char>,
    pub trigger: Seq<char>,
    pub height: Option<u64>,
    pub spec_version: Option<u32>,
    pub applied: bool,
    pub binary: Seq<char>,
    pub binary_present: bool,
    pub downloadable: bool,
}

impl View for UpgradeReport {
    type V = UpgradeView;

    open spec fn view(&self) -> UpgradeView {
        UpgradeView {
            name: self.name@,
            trigger: self.trigger@,
            height: self.height,
            spec_version: self.spec_version,
            applied: self.applied,
            binary: self.binary@,
            binary_present: self.binary_present,
            downloadable: self.downloadable,
        }
    }
}

/// What `status` says.
#[derive(Debug)]
pub struct Report {
    pub home: String,
    /// The active version, where `current` could be looked at.
    pub current: Option<String>,
    /// Its binary, where there is one.
    pub current_binary: Option<String>,
    pub chain: Option<ChainStatus>,
    pub upgrades: Vec<UpgradeReport>,
}

/// What `status` says.
pub struct ReportView {
    pub home: Seq<char>,
    pub current: Option<Seq<char>>,
    pub current_binary: Option<Seq<char>>,
    pub chain: Option<ChainStatus>,
    pub upgrades: Seq<UpgradeView>,
}

impl View for Report {
    type V = ReportView;

    open spec fn view(&self) -> ReportView {
        ReportView {
            home: self.home@,
            current: opt_text(self.current),
            current_binary: opt_text(self.current_binary),
            chain: self.chain,
            upgrades: upgrade_views(self.upgrades@),
        }
    }
}

/// The views of what `status` says of the plans.
pub open spec fn upgrade_views(upgrades: Seq<UpgradeReport>) -> Seq<UpgradeView> {
    upgrades.map_values(|u: UpgradeReport| u@)
}

/// What `status` says of a plan, given whether there is a file at its binary's place.
pub open spec fn upgrade_report(
    plan: PlanView,
    layout: LayoutView,
    applied: Set<Seq<char>>,
    present: bool,
    platform: Seq<char>,
) -> UpgradeView {
    UpgradeView {
        name: plan.name,
        trigger: plan.trigger_text(),
        height: plan.height,
        spec_version: plan.spec_version,
        applied: applied.contains(plan.name),
        binary: layout.upgrade_bin(plan.name),
        binary_present: present,
        downloadable: downloadable(plan.info, platform),
    }
}

/// What `status` says of the plans, given at whose binary's place there is a file.
pub open spec fn upgrade_reports(
    plans: Seq<UpgradePlan>,
    layout: LayoutView,
    applied: Set<Seq<char>>,
    present: Seq<bool>,
    platform: Seq<char>,
) -> Seq<UpgradeView> {
    Seq::new(
        plans.len(),
        |i: int| upgrade_report(plans[i]@, layout, applied, present[i], platform),
    )
}

/// What `status` says.
pub open spec fn report_of(
    layout: LayoutView,
    state: StateView,
    plans: Seq<UpgradePlan>,
    present: Seq<bool>,
    seen: Seen,
    platform: Seq<char>,
) -> ReportView {
    let link = opt_text(seen.link);
    ReportView {
        home: layout.root,
        current: if seen.link_known {
            Some(layout.current_name(link))
        } else {
            None
        },
        current_binary: if seen.link_known && seen.current_is_file {
            Some(layout.bin_path(layout.current_dir(link)))
        } else {
            None
        },
        chain: seen.chain,
        upgrades: upgrade_reports(plans, layout, state.names().to_set(), present, platform),
    }
}

/// `status`: current version, plans, and (optionally) live chain status. `present` says
/// of each plan whether there is a file at its binary's place.
pub fn status(
    cfg: &Config,
    state: &State,
    plans: &Vec<UpgradePlan>,
    present: &Vec<bool>,
    seen: &Seen,
    platform: &str,
) -> (r: Report)
    requires
        present@.len() == plans@.len(),
    ensures
        r@ == report_of(layout_of(*cfg), state@, plans@, present@, *seen, platform@),
{
    let layout = Layout::new(cfg.home.as_str(), cfg.name.as_str());
    let applied = state.applied_names();
    let ghost all = upgrade_reports(plans@, layout@, state@.names().to_set(), present@, platform@);
    let mut upgrades: Vec<UpgradeReport> = Vec::new();
    let mut i: usize = 0;
    assert(upgrade_views(upgrades@) =~= all.take(0));
    while i < plans.len()
        invariant
            i <= plans@.len(),
            present@.len() == plans@.len(),
            plan::name_set(applied@) == state@.names().to_set(),
            all == upgrade_reports(
                plans@,
                layout@,
                state@.names().to_set(),
                present@,
                platform@,
            ),
            upgrade_views(upgrades@) == all.take(i as int),
        decreases plans@.len() - i,
    {
        let ghost before = upgrade_views(upgrades@);
        let p = &plans[i];
        let report = UpgradeReport {
            name: p.name.clone(),
            trigger: p.describe_trigger(),
            height: p.height,
            spec_version: p.spec_version,
            applied: plan::contains_name(&applied, p.name.as_str()),
            binary: layout.upgrade_bin(p.name.as_str()),
            binary_present: present[i],
            downloadable: has_download_info(p.info.as_ref(), platform),
        };
        assert(report@ == all[i as int]);
        upgrades.push(report);
        assert(upgrade_views(upgrades@) =~= before.push(all[i as int]));
        assert(all.take(i + 1) =~= all.take(i as int).push(all[i as int]));
        i = i + 1;
    }
    assert(all.take(all.len() as int) == all);
    let link = match &seen.link {
        Some(t) => Some(t.as_str()),
        None => None,
    };
    let current = if seen.link_known {
        Some(layout.current_name(link))
    } else {
        None
    };
    let current_binary = if seen.link_known {
        match layout.current_bin(link, seen.current_is_file) {
            Ok(bin) => Some(bin),
            Err(_) => None,
        }
    } else {
        None
    };
    Report {
        home: layout.root().to_string(),
        current,
        current_binary,
        chain: seen.chain,
        upgrades,
    }
}

/// An optional natural number in JSON; null where there is none.
pub open spec fn opt_number(n: Option<nat>) -> JsonView {
    match n {
        Some(n) => JsonView::of_number(n),
        None => JsonView::Null,
    }
}

/// An optional text in JSON; null where there is none.
pub open spec fn opt_json(t: Option<Seq<char>>) -> JsonView {
    match t {
        Some(t) => JsonView::Text(t),
        None => JsonView::Null,
    }
}

/// A height or a `spec_version` as a natural number.
pub open spec fn wide64(n: Option<u64>) -> Option<nat> {
    match n {
        Some(n) => Some(n as nat),
        None => None,
    }
}

/// A `spec_version` as a natural number.
pub open spec fn wide32(n: Option<u32>) -> Option<nat> {
    match n {
        Some(n) => Some(n as nat),
        None => None,
    }
}

/// What is said of a plan, in JSON.
pub open spec fn upgrade_json(u: UpgradeView) -> JsonView {
    JsonView::Object(
        map![
            "name"@ => JsonView::Text(u.name),
            "trigger"@ => JsonView::Text(u.trigger),
            "height"@ => opt_number(wide64(u.height)),
            "spec_version"@ => opt_number(wide32(u.spec_version)),
            "status"@ => JsonView::Text(status_word(u.applied)),
            "binary"@ => JsonView::Text(u.binary),
            "binary_present"@ => JsonView::Bool(u.binary_present),
            "downloadable"@ => JsonView::Bool(u.downloadable)
        ],
    )
}

/// Whether a plan was applied, in a word.
pub open spec fn status_word(applied: bool) -> Seq<char> {
    if applied {
        "applied"@
    } else {
        "pending"@
    }
}

/// The fields of a chain status in JSON.
pub open spec fn chain_fields(c: ChainStatus) -> Map<Seq<char>, JsonView> {
    map![
        "height"@ => JsonView::of_number(c.height as nat),
        "spec_version"@ => JsonView::of_number(c.spec_version as nat)
    ]
}

/// A chain status in JSON; null where there is none.
pub open spec fn chain_json(c: Option<ChainStatus>) -> JsonView {
    match c {
        Some(c) => JsonView::Object(chain_fields(c)),
        None => JsonView::Null,
    }
}

/// What was last seen on chain, in JSON; null where nothing was.
pub open spec fn observed_json(o: Option<ObservedView>) -> JsonView {
    match o {
        Some(o) => JsonView::Object(
            chain_fields(o.status).insert("observed_at"@, JsonView::Text(o.observed_at)),
        ),
        None => JsonView::Null,
    }
}

/// An applied upgrade in JSON. What was seen on chain is left out where nothing was.
pub open spec fn applied_json(a: AppliedView) -> JsonView {
    let m = map![
        "name"@ => JsonView::Text(a.name),
        "applied_at"@ => JsonView::Text(a.applied_at)
    ];
    JsonView::Object(
        match a.observed {
            Some(c) => m.insert("observed"@, chain_json(Some(c))),
            None => m,
        },
    )
}

/// What `status --json` says.
pub open spec fn report_json(r: ReportView, state: StateView) -> JsonView {
    JsonView::Object(
        map![
            "home"@ => JsonView::Text(r.home),
            "current"@ => opt_json(r.current),
            "current_binary"@ => opt_json(r.current_binary),
            "chain"@ => chain_json(r.chain),
            "last_observed"@ => observed_json(state.last_observed),
            "applied"@ => JsonView::Array(state.applied.map_values(|a: AppliedView| applied_json(a))),
            "upgrades"@ => JsonView::Array(r.upgrades.map_values(|u: UpgradeView| upgrade_json(u)))
        ],
    )
}

fn number_or_null(n: Option<u64>) -> (r: Json)
    ensures
        r@ == opt_number(wide64(n)),
{
    match n {
        Some(n) => Json::number(n),
        None => Json::Null,
    }
}

fn text_or_null(t: &Option<String>) -> (r: Json)
    ensures
        r@ == opt_json(opt_text(*t)),
{
    match t {
        Some(t) => Json::Text(t.clone()),
        None => Json::Null,
    }
}

fn chain_to_json(c: Option<ChainStatus>) -> (r: Json)
    ensures
        r@ == chain_json(c),
{
    match c {
        Some(c) => Json::object().with("height", Json::number(c.height)).with(
            "spec_version",
            Json::number(c.spec_version as u64),
        ),
        None => Json::Null,
    }
}

impl UpgradeReport {
    fn to_json(&self) -> (r: Json)
        ensures
            r@ == upgrade_json(self@),
    {
        let spec: Option<u64> = match self.spec_version {
            Some(v) => Some(v as u64),
            None => None,
        };
        let word = if self.applied {
            "applied"
        } else {
            "pending"
        };
        let r = Json::object().with("name", Json::Text(self.name.clone())).with(
            "trigger",
            Json::Text(self.trigger.clone()),
        ).with("height", number_or_null(self.height)).with("spec_version", number_or_null(spec)).with(
            "status",
            Json::text(word),
        ).with("binary", Json::Text(self.binary.clone())).with(
            "binary_present",
            Json::Bool(self.binary_present),
        ).with("downloadable", Json::Bool(self.downloadable));
        assert(r@ == upgrade_json(self@));
        r
    }
}

fn applied_to_json(a: &AppliedUpgrade) -> (r: Json)
    ensures
        r@ == applied_json(a@),
{
    let r = Json::object().with("name", Json::Text(a.name.clone())).with(
        "applied_at",
        Json::Text(a.applied_at.clone()),
    );
    match a.observed {
        Some(c) => r.with("observed", chain_to_json(Some(c))),
        None => r,
    }
}

fn observed_to_json(o: &Option<Observed>) -> (r: Json)
    ensures
        r@ == observed_json(
            match *o {
                Some(o) => Some(o@),
                None => None,
            },
        ),
{
    match o {
        Some(o) => chain_to_json(Some(o.status)).with(
            "observed_at",
            Json::Text(o.observed_at.clone()),
        ),
        None => Json::Null,
    }
}

impl Report {
    /// What `status --json` says.
    pub fn to_json(&self, state: &State) -> (r: Json)
        ensures
            r@ == report_json(self@, state@),
    {
        let mut applied: Vec<Json> = Vec::new();
        let ghost all = state@.applied.map_values(|a: AppliedView| applied_json(a));
        assert(meanings(applied@) =~= all.take(0));
        let mut i: usize = 0;
        while i < state.applied.len()
            invariant
                i <= state.applied@.len(),
                all == state@.applied.map_values(|a: AppliedView| applied_json(a)),
                meanings(applied@) == all.take(i as int),
            decreases state.applied@.len() - i,
        {
            let ghost before = applied@;
            let item = applied_to_json(&state.applied[i]);
            assert(item@ == all[i as int]);
            applied.push(item);
            proof {
                meanings_grow(before, item);
                assert(all.take(i + 1) =~= all.take(i as int).push(all[i as int]));
            }
            i = i + 1;
        }
        assert(all.take(all.len() as int) == all);
        let mut upgrades: Vec<Json> = Vec::new();
        let ghost ups = self@.upgrades.map_values(|u: UpgradeView| upgrade_json(u));
        assert(meanings(upgrades@) =~= ups.take(0));
        let mut k: usize = 0;
        while k < self.upgrades.len()
            invariant
                k <= self.upgrades@.len(),
                ups == self@.upgrades.map_values(|u: UpgradeView| upgrade_json(u)),
                meanings(upgrades@) == ups.take(k as int),
            decreases self.upgrades@.len() - k,
        {
            let ghost before = upgrades@;
            let item = self.upgrades[k].to_json();
            assert(item@ == ups[k as int]);
            upgrades.push(item);
            proof {
                meanings_grow(before, item);
                assert(ups.take(k + 1) =~= ups.take(k as int).push(ups[k as int]));
            }
            k = k + 1;
        }
        assert(ups.take(ups.len() as int) == ups);
        let r = Json::object().with("home", Json::Text(self.home.clone())).with(
            "current",
            text_or_null(&self.current),
        ).with("current_binary", text_or_null(&self.current_binary)).with(
            "chain",
            chain_to_json(self.chain),
        ).with("last_observed", observed_to_json(&state.last_observed)).with(
            "applied",
            Json::Array(applied),
        ).with("upgrades", Json::Array(upgrades));
        assert(r@ == report_json(self@, state@));
        r
    }
}

/// The readiness of a plan's binary, in words.
pub open spec fn binary_words(u: UpgradeView) -> Seq<char> {
    if u.binary_present {
        "binary ok"@
    } else if u.downloadable {
        "binary downloadable"@
    } else {
        "BINARY MISSING"@
    }
}

/// The line for a plan.
pub open spec fn upgrade_line(u: UpgradeView) -> Seq<char> {
    "  "@ + text::padded(u.name, 24) + " "@ + text::padded(status_word(u.applied), 8) + " "@
        + text::padded(u.trigger, 40) + " "@ + binary_words(u)
}

/// A chain status in words.
pub open spec fn chain_words(c: ChainStatus) -> Seq<char> {
    "chain:    height "@ + text::decimal(c.height as nat) + " spec_version "@ + text::decimal(
        c.spec_version as nat,
    )
}

/// The line for the chain: what the node says, else what was last seen.
pub open spec fn chain_line(
    chain: Option<ChainStatus>,
    observed: Option<ObservedView>,
    finality: Finality,
    rpc_url: Seq<char>,
) -> Seq<char> {
    match (chain, observed) {
        (Some(c), _) => chain_words(c) + " (live, "@ + finality_text(finality) + " block)"@,
        (None, Some(o)) => chain_words(o.status) + " (last observed "@ + o.observed_at + "; RPC "@
            + rpc_url + " unreachable)"@,
        (None, None) => "chain:    unknown (RPC "@ + rpc_url + " unreachable)"@,
    }
}

/// The lines that `status` prints.
pub open spec fn report_lines(
    r: ReportView,
    observed: Option<ObservedView>,
    finality: Finality,
    rpc_url: Seq<char>,
) -> Seq<Seq<char>> {
    let head = seq![
        "home:     "@ + r.home,
        "current:  "@ + match r.current {
            Some(name) => name,
            None => "?"@,
        },
        chain_line(r.chain, observed, finality, rpc_url),
    ];
    if r.upgrades.len() == 0 {
        head.push("upgrades: none registered"@)
    } else {
        head.push("upgrades:"@) + r.upgrades.map_values(|u: UpgradeView| upgrade_line(u))
    }
}

fn describe_chain(c: ChainStatus) -> (r: String)
    ensures
        r@ == chain_words(c),
{
    let mut r = "chain:    height ".to_string();
    r.append(text::decimal_text(c.height).as_str());
    r.append(" spec_version ");
    r.append(text::decimal_text(c.spec_version as u64).as_str());
    r
}

impl UpgradeReport {
    fn line(&self) -> (r: String)
        ensures
            r@ == upgrade_line(self@),
    {
        let word = if self.applied {
            "applied"
        } else {
            "pending"
        };
        let mut r = "  ".to_string();
        r.append(text::pad(self.name.as_str(), 24).as_str());
        r.append(" ");
        r.append(text::pad(word, 8).as_str());
        r.append(" ");
        r.append(text::pad(self.trigger.as_str(), 40).as_str());
        r.append(" ");
        if self.binary_present {
            r.append("binary ok");
        } else if self.downloadable {
            r.append("binary downloadable");
        } else {
            r.append("BINARY MISSING");
        }
        r
    }
}

impl Report {
    fn chain_text(&self, cfg: &Config, observed: &Option<Observed>) -> (r: String)
        ensures
            r@ == chain_line(
                self.chain,
                match *observed {
                    Some(o) => Some(o@),
                    None => None,
                },
                cfg.finality,
                cfg.rpc_url@,
            ),
    {
        match (self.chain, observed) {
            (Some(c), _) => {
                let mut r = describe_chain(c);
                r.append(" (live, ");
                r.append(finality_name(cfg));
                r.append(" block)");
                r
            },
            (None, Some(o)) => {
                let mut r = describe_chain(o.status);
                r.append(" (last observed ");
                r.append(o.observed_at.as_str());
                r.append("; RPC ");
                r.append(cfg.rpc_url.as_str());
                r.append(" unreachable)");
                r
            },
            (None, None) => {
                let mut r = "chain:    unknown (RPC ".to_string();
                r.append(cfg.rpc_url.as_str());
                r.append(" unreachable)");
                r
            },
        }
    }

    /// The lines that `status` prints.
    pub fn lines(&self, cfg: &Config, state: &State) -> (r: Vec<String>)
        ensures
            text::texts(r@) == report_lines(
                self@,
                state@.last_observed,
                cfg.finality,
                cfg.rpc_url@,
            ),
    {
        let mut home = "home:     ".to_string();
        home.append(self.home.as_str());
        let mut current = "current:  ".to_string();
        match &self.current {
            Some(name) => current.append(name.as_str()),
            None => current.append("?"),
        }
        let chain = self.chain_text(cfg, &state.last_observed);
        let ghost head = seq![home@, current@, chain@];
        let mut r: Vec<String> = Vec::new();
        r.push(home);
        r.push(current);
        r.push(chain);
        assert(text::texts(r@) =~= head);
        if self.upgrades.len() == 0 {
            r.push("upgrades: none registered".to_string());
            assert(text::texts(r@) =~= head.push("upgrades: none registered"@));
            return r;
        }
        r.push("upgrades:".to_string());
        let ghost top = head.push("upgrades:"@);
        let ghost all = self@.upgrades.map_values(|u: UpgradeView| upgrade_line(u));
        assert(text::texts(r@) =~= top + all.take(0));
        let mut i: usize = 0;
        while i < self.upgrades.len()
            invariant
                i <= self.upgrades@.len(),
                all == self@.upgrades.map_values(|u: UpgradeView| upgrade_line(u)),
                text::texts(r@) == top + all.take(i as int),
            decreases self.upgrades@.len() - i,
        {
            let ghost before = text::texts(r@);
            let line = self.upgrades[i].line();
            assert(line@ == all[i as int]);
            r.push(line);
            assert(text::texts(r@) =~= before.push(all[i as int]));
            assert(all.take(i + 1) =~= all.take(i as int).push(all[i as int]));
            i = i + 1;
        }
        assert(all.take(all.len() as int) == all);
        r
    }
}

/// The plans that were not applied, in their order.
pub open spec fn pending_plans(plans: Seq<PlanView>, applied: Set<Seq<char>>) -> Seq<PlanView>
    decreases plans.len(),
{
    if plans.len() == 0 {
        Seq::empty()
    } else {
        let front = pending_plans(plans.drop_last(), applied);
        if applied.contains(plans.last().name) {
            front
        } else {
            front.push(plans.last())
        }
    }
}

/// `prepare-upgrade`: the plans whose binaries are to be made ready, those that were not
/// applied.
pub fn prepare_upgrade(state: &State, plans: Vec<UpgradePlan>) -> (r: Vec<UpgradePlan>)
    ensures
        plan::plan_views(r@) == pending_plans(
            plan::plan_views(plans@),
            state@.names().to_set(),
        ),
{
    let applied = state.applied_names();
    let mut r: Vec<UpgradePlan> = Vec::new();
    let ghost all = plan::plan_views(plans@);
    let ghost done = state@.names().to_set();
    assert(plan::plan_views(r@) =~= pending_plans(all.take(0), done));
    for p in it: plans
        invariant
            all == plan::plan_views(it.seq()),
            done == plan::name_set(applied@),
            plan::plan_views(r@) == pending_plans(all.take(it.index() as int), done),
    {
        let ghost i = it.index() as int;
        let ghost before = plan::plan_views(r@);
        proof {
            assert(all.take(i + 1).drop_last() == all.take(i));
            assert(all.take(i + 1).last() == p@);
        }
        let ghost view = p@;
        if !plan::contains_name(&applied, p.name.as_str()) {
            r.push(p);
            assert(plan::plan_views(r@) =~= before.push(view));
        }
    }
    assert(all.take(all.len() as int) == all);
    r
}

/// How `prepare-upgrade` makes the binary of a pending plan ready. The operator runs it
/// explicitly, so it may always download, whatever the configuration says.
pub fn prepare_pending(
    cfg: &Config,
    layout: &Layout,
    plan: &UpgradePlan,
    exists: bool,
) -> (r: Result<Preparation, PrepareError>)
    ensures
        prepared(*cfg, layout@, plan@, true, exists, r),
        !(r matches Err(PrepareError::DownloadDisabled(_))),
{
    prepare_binary(cfg, layout, plan, true, exists)
}

/// How many of these are false.
pub open spec fn count_false(flags: Seq<bool>) -> nat
    decreases flags.len(),
{
    if flags.len() == 0 {
        0
    } else {
        count_false(flags.drop_last()) + if flags.last() {
            0nat
        } else {
            1nat
        }
    }
}

/// Some pending upgrades are not ready.
#[derive(Debug, Clone, Copy, PartialEq, Eq, Structural)]
pub struct NotReady {
    pub failed: usize,
    pub total: usize,
}

/// What comes of `prepare-upgrade`, given which of the pending upgrades are ready.
pub fn readiness(ready: &Vec<bool>) -> (r: Result<(), NotReady>)
    ensures
        match r {
            Ok(()) => count_false(ready@) == 0,
            Err(e) => e.failed > 0 && e.failed == count_false(ready@) && e.total == ready@.len(),
        },
{
    let mut failed: usize = 0;
    let mut i: usize = 0;
    while i < ready.len()
        invariant
            i <= ready@.len(),
            failed <= i,
            failed == count_false(ready@.take(i as int)),
        decreases ready@.len() - i,
    {
        proof {
            assert(ready@.take(i + 1).drop_last() == ready@.take(i as int));
            assert(ready@.take(i + 1).last() == ready@[i as int]);
        }
        if !ready[i] {
            failed = failed + 1;
        }
        i = i + 1;
    }
    assert(ready@.take(ready@.len() as int) == ready@);
    if failed > 0 {
        Err(NotReady { failed, total: ready.len() })
    } else {
        Ok(())
    }
}

/// A plan is prepared exactly if it is registered and was not applied.
pub proof fn pending_are_the_unapplied(
    plans: Seq<PlanView>,
    applied: Set<Seq<char>>,
    plan: PlanView,
)
    ensures
        pending_plans(plans, applied).contains(plan) == (plans.contains(plan) && !applied.contains(
            plan.name,
        )),
    decreases plans.len(),
{
    let pending = pending_plans(plans, applied);
    if plans.len() > 0 {
        let front = plans.drop_last();
        let last = plans.last();
        let before = pending_plans(front, applied);
        pending_are_the_unapplied(front, applied, plan);
        assert(plans == front.push(last));
        if front.contains(plan) {
            let i = choose|i: int| 0 <= i < front.len() && front[i] == plan;
            assert(plans[i] == plan);
        }
        if plans.contains(plan) && plan != last {
            let i = choose|i: int| 0 <= i < plans.len() && plans[i] == plan;
            assert(front[i] == plan);
        }
        assert(plans.contains(last)) by {
            assert(plans[plans.len() - 1] == last);
        }
        if !applied.contains(last.name) {
            assert(pending == before.push(last));
            assert(pending[pending.len() - 1] == last);
            if before.contains(plan) {
                let i = choose|i: int| 0 <= i < before.len() && before[i] == plan;
                assert(pending[i] == plan);
            }
            if pending.contains(plan) && plan != last {
                let i = choose|i: int| 0 <= i < pending.len() && pending[i] == plan;
                assert(before[i] == plan);
            }
        }
    }
}

} // verus!
