//! On-disk layout under `$DAEMON_HOME/midnight-node-updater`:
//!
//! ```text
//! midnight-node-updater/
//! ├── current -> genesis | upgrades/<name>
//! ├── genesis/bin/midnight-node
//! ├── upgrades/<name>/
//! │   ├── bin/midnight-node
//! │   └── upgrade-info.json
//! └── state.json
//! ```

use vstd::prelude::*;

use crate::path;
use crate::plan::{distinct_names, plan_views, valid_name, PlanError, PlanView, UpgradePlan};
use crate::text;

verus! {

pub const ROOT_DIR: &'static str = "midnight-node-updater";

pub const GENESIS: &'static str = "genesis";

pub const UPGRADES: &'static str = "upgrades";

pub const CURRENT: &'static str = "current";

pub const PLAN_FILE: &'static str = "upgrade-info.json";

pub const STATE_FILE: &'static str = "state.json";

/// Where the files of one installation are.
#[derive(Debug)]
pub struct Layout {
    root: String,
    daemon_name: String,
}

/// The directory of an installation and the name of its node binary.
pub struct LayoutView {
    pub root: Seq<char>,
    pub daemon_name: Seq<char>,
}

impl View for Layout {
    type V = LayoutView;

    closed spec fn view(&self) -> LayoutView {
        LayoutView { root: self.root@, daemon_name: self.daemon_name@ }
    }
}

impl LayoutView {
    pub open spec fn of(home: Seq<char>, daemon_name: Seq<char>) -> LayoutView {
        LayoutView { root: path::joined(home, ROOT_DIR@), daemon_name }
    }

    pub open spec fn genesis_dir(self) -> Seq<char> {
        path::joined(self.root, GENESIS@)
    }

    pub open spec fn upgrades_dir(self) -> Seq<char> {
        path::joined(self.root, UPGRADES@)
    }

    pub open spec fn upgrade_dir(self, name: Seq<char>) -> Seq<char> {
        path::joined(self.upgrades_dir(), name)
    }

    pub open spec fn plan_file(self, name: Seq<char>) -> Seq<char> {
        path::joined(self.upgrade_dir(name), PLAN_FILE@)
    }

    pub open spec fn current_link(self) -> Seq<char> {
        path::joined(self.root, CURRENT@)
    }

    pub open spec fn state_file(self) -> Seq<char> {
        path::joined(self.root, STATE_FILE@)
    }

    pub open spec fn bin_path(self, dir: Seq<char>) -> Seq<char> {
        path::joined(path::joined(dir, "bin"@), self.daemon_name)
    }

    pub open spec fn upgrade_bin(self, name: Seq<char>) -> Seq<char> {
        self.bin_path(self.upgrade_dir(name))
    }

    /// The directory that `current` leads to, given what the link holds; without a
    /// link, `genesis`.
    pub open spec fn current_dir(self, link: Option<Seq<char>>) -> Seq<char> {
        match link {
            Some(target) => path::joined(self.root, target),
            None => self.genesis_dir(),
        }
    }

    /// The name of the active version: `genesis` or the upgrade name.
    pub open spec fn current_name(self, link: Option<Seq<char>>) -> Seq<char> {
        match path::last_name(self.current_dir(link)) {
            Some(name) => name,
            None => Seq::empty(),
        }
    }
}

/// What `current` holds once it points to `genesis` or to an upgrade.
pub open spec fn link_target(upgrade: Option<Seq<char>>) -> Seq<char> {
    match upgrade {
        None => GENESIS@,
        Some(name) => path::joined(UPGRADES@, name),
    }
}

/// The view of an optional text.
pub open spec fn opt_view(s: Option<&str>) -> Option<Seq<char>> {
    match s {
        Some(t) => Some(t@),
        None => None,
    }
}

/// There is no node binary at the active version's place.
#[derive(Debug)]
pub struct MissingBinary {
    pub path: String,
}

/// There is no directory for the version to switch to.
#[derive(Debug)]
pub struct MissingDirectory {
    pub path: String,
}

/// How to repoint `current`: make a link `scratch` that holds `target`, then rename
/// it to `link`.
#[derive(Debug)]
pub struct Switch {
    pub target: String,
    pub scratch: String,
    pub link: String,
}

/// Where a plan is written: `file`, in the directory `dir`.
#[derive(Debug)]
pub struct PlanPlace {
    pub dir: String,
    pub file: String,
}

/// What becomes of a plan file that could be read.
#[derive(Debug, Clone, Copy, PartialEq, Eq, Structural)]
pub enum Verdict {
    Kept,
    /// The plan itself is refused.
    Invalid(PlanError),
    /// The plan's name is not that of the directory it lies in.
    Misplaced,
}

/// What becomes of a plan that lies in the directory `dir_name`.
pub open spec fn verdict(dir_name: Seq<char>, plan: PlanView) -> Verdict {
    match plan.fault() {
        Some(e) => Verdict::Invalid(e),
        None => if plan.name != dir_name {
            Verdict::Misplaced
        } else {
            Verdict::Kept
        },
    }
}

impl Layout {
    pub fn new(home: &str, daemon_name: &str) -> (r: Layout)
        ensures
            r@ == LayoutView::of(home@, daemon_name@),
    {
        Layout { root: path::join(home, ROOT_DIR), daemon_name: daemon_name.to_string() }
    }

    pub fn root(&self) -> (r: &str)
        ensures
            r@ == self@.root,
    {
        self.root.as_str()
    }

    pub fn daemon_name(&self) -> (r: &str)
        ensures
            r@ == self@.daemon_name,
    {
        self.daemon_name.as_str()
    }

    pub fn genesis_dir(&self) -> (r: String)
        ensures
            r@ == self@.genesis_dir(),
    {
        path::join(self.root.as_str(), GENESIS)
    }

    pub fn upgrades_dir(&self) -> (r: String)
        ensures
            r@ == self@.upgrades_dir(),
    {
        path::join(self.root.as_str(), UPGRADES)
    }

    pub fn upgrade_dir(&self, name: &str) -> (r: String)
        ensures
            r@ == self@.upgrade_dir(name@),
    {
        path::join(self.upgrades_dir().as_str(), name)
    }

    pub fn plan_file(&self, name: &str) -> (r: String)
        ensures
            r@ == self@.plan_file(name@),
    {
        path::join(self.upgrade_dir(name).as_str(), PLAN_FILE)
    }

    pub fn current_link(&self) -> (r: String)
        ensures
            r@ == self@.current_link(),
    {
        path::join(self.root.as_str(), CURRENT)
    }

    pub fn state_file(&self) -> (r: String)
        ensures
            r@ == self@.state_file(),
    {
        path::join(self.root.as_str(), STATE_FILE)
    }

    pub fn bin_path(&self, dir: &str) -> (r: String)
        ensures
            r@ == self@.bin_path(dir@),
    {
        path::join(path::join(dir, "bin").as_str(), self.daemon_name.as_str())
    }

    pub fn upgrade_bin(&self, name: &str) -> (r: String)
        ensures
            r@ == self@.upgrade_bin(name@),
    {
        self.bin_path(self.upgrade_dir(name).as_str())
    }

    /// The directory `current` points to, given what the link holds; `genesis` if the
    /// link does not exist yet.
    pub fn current_dir(&self, link: Option<&str>) -> (r: String)
        ensures
            r@ == self@.current_dir(opt_view(link)),
    {
        match link {
            Some(target) => path::join(self.root.as_str(), target),
            None => self.genesis_dir(),
        }
    }

    /// Human-readable name of the active version: `genesis` or the upgrade name.
    pub fn current_name(&self, link: Option<&str>) -> (r: String)
        ensures
            r@ == self@.current_name(opt_view(link)),
    {
        match path::file_name(self.current_dir(link).as_str()) {
            Some(name) => name,
            None => String::new(),
        }
    }

    /// The active version's node binary, given whether there is a file at its place.
    pub fn current_bin(&self, link: Option<&str>, is_file: bool) -> (r: Result<
        String,
        MissingBinary,
    >)
        ensures
            match r {
                Ok(bin) => is_file && bin@ == self@.bin_path(self@.current_dir(opt_view(link))),
                Err(e) => !is_file && e.path@ == self@.bin_path(
                    self@.current_dir(opt_view(link)),
                ),
            },
    {
        let bin = self.bin_path(self.current_dir(link).as_str());
        if is_file {
            Ok(bin)
        } else {
            Err(MissingBinary { path: bin })
        }
    }

    /// What `current` is to hold for `genesis` or `upgrades/<name>`.
    pub fn target(upgrade: Option<&str>) -> (r: String)
        ensures
            r@ == link_target(opt_view(upgrade)),
    {
        match upgrade {
            None => GENESIS.to_string(),
            Some(name) => path::join(UPGRADES, name),
        }
    }

    /// How to atomically repoint `current` to `genesis` or `upgrades/<name>`, given
    /// whether that directory exists.
    pub fn set_current(&self, upgrade: Option<&str>, is_dir: bool) -> (r: Result<
        Switch,
        MissingDirectory,
    >)
        ensures
            match r {
                Ok(s) => is_dir && s.target@ == link_target(opt_view(upgrade)) && s.link@
                    == self@.current_link() && s.scratch@ == path::joined(
                    self@.root,
                    ".current.tmp"@,
                ),
                Err(e) => !is_dir && e.path@ == path::joined(
                    self@.root,
                    link_target(opt_view(upgrade)),
                ),
            },
    {
        let target = Layout::target(upgrade);
        if !is_dir {
            return Err(MissingDirectory { path: path::join(self.root.as_str(), target.as_str()) });
        }
        Ok(
            Switch {
                target,
                scratch: path::join(self.root.as_str(), ".current.tmp"),
                link: self.current_link(),
            },
        )
    }

    /// Where `plan` is to be written, if it is fit to be written.
    pub fn save_plan(&self, plan: &UpgradePlan) -> (r: Result<PlanPlace, PlanError>)
        ensures
            match r {
                Ok(place) => plan@.fault() is None && place.dir@ == self@.upgrade_dir(
                    plan@.name,
                ) && place.file@ == self@.plan_file(plan@.name),
                Err(e) => plan@.fault() == Some(e),
            },
    {
        match plan.validate() {
            Ok(()) => Ok(
                PlanPlace {
                    dir: self.upgrade_dir(plan.name.as_str()),
                    file: self.plan_file(plan.name.as_str()),
                },
            ),
            Err(e) => Err(e),
        }
    }
}

/// What becomes of a plan that lies in the directory `dir_name`.
pub fn judge_plan(dir_name: &str, plan: &UpgradePlan) -> (r: Verdict)
    ensures
        r == verdict(dir_name@, plan@),
{
    match plan.validate() {
        Err(e) => Verdict::Invalid(e),
        Ok(()) => if text::same(plan.name.as_str(), dir_name) {
            Verdict::Kept
        } else {
            Verdict::Misplaced
        },
    }
}

/// A plan file that could be read, with the name of the directory it lies in.
#[derive(Debug)]
pub struct PlanEntry {
    pub dir_name: String,
    pub plan: UpgradePlan,
}

/// The plans of the entries that are kept, in the order of the entries.
pub open spec fn kept_plans(entries: Seq<PlanEntry>) -> Seq<PlanView>
    decreases entries.len(),
{
    if entries.len() == 0 {
        Seq::empty()
    } else {
        let front = kept_plans(entries.drop_last());
        let entry = entries.last();
        if verdict(entry.dir_name@, entry.plan@) == Verdict::Kept {
            front.push(entry.plan@)
        } else {
            front
        }
    }
}

/// The plans called `name`, in their order.
pub open spec fn called(plans: Seq<PlanView>, name: Seq<char>) -> Seq<PlanView> {
    plans.filter(|p: PlanView| p.name == name)
}

/// The plans are in the order of their names.
pub open spec fn by_name(plans: Seq<PlanView>) -> bool {
    forall|i: int, j: int|
        0 <= i <= j < plans.len() ==> text::at_most(
            #[trigger] plans[i].name,
            #[trigger] plans[j].name,
        )
}

/// `sorted` holds the plans of `plans`, in the order of their names; plans with one
/// name keep their order.
pub open spec fn sorts(sorted: Seq<PlanView>, plans: Seq<PlanView>) -> bool {
    &&& by_name(sorted)
    &&& forall|name: Seq<char>| #[trigger] called(sorted, name) == called(plans, name)
}

proof fn insert_keeps_order(plans: Seq<PlanView>, pos: int, plan: PlanView)
    requires
        by_name(plans),
        0 <= pos <= plans.len(),
        forall|j: int| 0 <= j < pos ==> text::at_most(#[trigger] plans[j].name, plan.name),
        pos < plans.len() ==> !text::at_most(plans[pos].name, plan.name),
    ensures
        by_name(plans.insert(pos, plan)),
        forall|name: Seq<char>| #[trigger]
            called(plans.insert(pos, plan), name) == called(plans.push(plan), name),
{
    let out = plans.insert(pos, plan);
    assert forall|i: int, j: int| 0 <= i <= j < out.len() implies text::at_most(
        #[trigger] out[i].name,
        #[trigger] out[j].name,
    ) by {
        text::at_most_total(plan.name, plan.name);
        if pos < plans.len() {
            text::at_most_total(plan.name, plans[pos].name);
        }
        if i == pos && j > pos {
            assert(out[j] == plans[j - 1]);
            text::at_most_transitive(plan.name, plans[pos].name, plans[j - 1].name);
        } else if i < pos && j > pos {
            assert(out[i] == plans[i]);
            assert(out[j] == plans[j - 1]);
        } else if i < pos && j < pos {
            assert(out[i] == plans[i]);
            assert(out[j] == plans[j]);
        } else if i > pos {
            assert(out[i] == plans[i - 1]);
            assert(out[j] == plans[j - 1]);
        } else if i < pos && j == pos {
            assert(out[i] == plans[i]);
        }
    }
    assert forall|name: Seq<char>| #[trigger]
        called(out, name) == called(plans.push(plan), name) by {
        let pred = |p: PlanView| p.name == name;
        let head = plans.take(pos);
        let tail = plans.skip(pos);
        assert(out =~= head.push(plan) + tail);
        assert(plans =~= head + tail);
        Seq::filter_distributes_over_add(head.push(plan), tail, pred);
        Seq::filter_distributes_over_add(head, tail, pred);
        head.lemma_filter_push(plan, pred);
        plans.lemma_filter_push(plan, pred);
        if plan.name == name {
            assert(tail.filter(pred) =~= Seq::<PlanView>::empty()) by {
                if tail.filter(pred).len() > 0 {
                    tail.lemma_filter_pred(pred, 0);
                    let hit = tail.filter(pred)[0];
                    assert(tail.filter(pred).contains(hit));
                    tail.lemma_filter_contains_rev(pred, hit);
                    let k = choose|k: int| 0 <= k < tail.len() && tail[k] == hit;
                    assert(plans[pos + k].name == plan.name);
                    assert(text::at_most(plans[pos].name, plans[pos + k].name));
                }
            }
        }
    }
}

impl Layout {
    /// The plans of an installation: those that are valid and lie in the directory of
    /// their own name, sorted by name. Others are left out, so that a typo never takes
    /// a running node down.
    pub fn load_plans(&self, entries: Vec<PlanEntry>) -> (r: Vec<UpgradePlan>)
        ensures
            sorts(plan_views(r@), kept_plans(entries@)),
    {
        let mut r: Vec<UpgradePlan> = Vec::new();
        let ghost all = entries@;
        assert(plan_views(r@) =~= kept_plans(all.take(0)));
        for entry in it: entries
            invariant
                all == it.seq(),
                sorts(plan_views(r@), kept_plans(all.take(it.index() as int))),
        {
            let ghost i = it.index() as int;
            let ghost before = plan_views(r@);
            proof {
                assert(all.take(i + 1).drop_last() == all.take(i));
                assert(all.take(i + 1).last() == entry);
            }
            if let Verdict::Kept = judge_plan(entry.dir_name.as_str(), &entry.plan) {
                let mut pos: usize = r.len();
                while pos > 0 && !text::in_order(r[pos - 1].name.as_str(), entry.plan.name.as_str())
                    invariant
                        pos <= r@.len(),
                        before == plan_views(r@),
                        pos < r@.len() ==> !text::at_most(before[pos as int].name, entry.plan@.name),
                    decreases pos,
                {
                    pos = pos - 1;
                }
                let ghost plan = entry.plan@;
                proof {
                    assert forall|j: int| 0 <= j < pos implies text::at_most(
                        #[trigger] before[j].name,
                        plan.name,
                    ) by {
                        text::at_most_transitive(before[j].name, before[pos - 1].name, plan.name);
                    }
                    insert_keeps_order(before, pos as int, plan);
                    assert forall|name: Seq<char>| #[trigger]
                        called(before.insert(pos as int, plan), name) == called(
                            kept_plans(all.take(i + 1)),
                            name,
                        ) by {
                        let pred = |p: PlanView| p.name == name;
                        before.lemma_filter_push(plan, pred);
                        kept_plans(all.take(i)).lemma_filter_push(plan, pred);
                        assert(called(before, name) == called(kept_plans(all.take(i)), name));
                    }
                }
                r.insert(pos, entry.plan);
                assert(plan_views(r@) =~= before.insert(pos as int, plan));
            }
        }
        assert(all.take(all.len() as int) == all);
        r
    }
}

/// The permissions of an installed binary.
pub const BINARY_MODE: u32 = 0o755;

/// The name under which a file is written before it takes the place of `name`.
pub open spec fn scratch_name(name: Seq<char>) -> Seq<char> {
    seq!['.'] + name + ".tmp"@
}

fn to_scratch_name(name: &str) -> (r: String)
    ensures
        r@ == scratch_name(name@),
{
    let mut r = String::new();
    r.push('.');
    assert(r@ =~= seq!['.']);
    r.append(name);
    r.append(".tmp");
    r
}

/// How to install a binary: make the directory `dir`, copy the binary to `scratch`, let
/// it be run by anyone, then rename it.
#[derive(Debug)]
pub struct Install {
    pub dir: String,
    pub scratch: String,
}

/// Why no binary is installed.
#[derive(Debug, Clone, Copy, PartialEq, Eq, Structural)]
pub enum InstallError {
    /// What is to be installed is not a file.
    NotAFile,
    /// The destination lies in no directory.
    NoParent,
}

/// How to install a binary at `dst`, given whether it is a file. It takes its place at
/// once, from beside it.
pub fn install_executable(src_is_file: bool, dst: &str) -> (r: Result<Install, InstallError>)
    requires
        path::parent_of(dst@) is Some ==> path::last_name(dst@) is Some,
    ensures
        if !src_is_file {
            r == Err::<Install, InstallError>(InstallError::NotAFile)
        } else {
            match path::parent_of(dst@) {
                None => r == Err::<Install, InstallError>(InstallError::NoParent),
                Some(dir) => r matches Ok(i) && i.dir@ == dir && i.scratch@ == path::joined(
                    dir,
                    scratch_name(path::last_name(dst@)->0),
                ),
            }
        },
{
    if !src_is_file {
        return Err(InstallError::NotAFile);
    }
    match path::parent(dst) {
        None => Err(InstallError::NoParent),
        Some(dir) => {
            match path::file_name(dst) {
                Some(name) => {
                    let scratch = path::join(
                        dir.as_str(),
                        to_scratch_name(name.as_str()).as_str(),
                    );
                    Ok(Install { dir, scratch })
                },
                None => Err(InstallError::NoParent),
            }
        },
    }
}

/// Whether a file of this kind and with these permissions can be run by anyone.
pub fn is_executable(is_file: bool, mode: u32) -> (r: bool)
    ensures
        r == (is_file && mode & 0o111 != 0),
{
    is_file && mode & 0o111 != 0
}

/// The directory of a validly named upgrade is an entry of the upgrades directory,
/// called by the upgrade's name.
pub proof fn upgrade_dir_is_in_upgrades(home: Seq<char>, daemon_name: Seq<char>, name: Seq<char>)
    requires
        valid_name(name),
    ensures
        ({
            let layout = LayoutView::of(home, daemon_name);
            path::components(layout.upgrade_dir(name)) == path::components(
                layout.upgrades_dir(),
            ).push(name)
        }),
{
    let layout = LayoutView::of(home, daemon_name);
    reveal_strlit("upgrades");
    crate::plan::valid_name_stays_in_directory(layout.upgrades_dir(), name);
}

/// Two validly named upgrades never share a directory.
pub proof fn upgrade_dirs_are_distinct(
    home: Seq<char>,
    daemon_name: Seq<char>,
    a: Seq<char>,
    b: Seq<char>,
)
    requires
        valid_name(a),
        valid_name(b),
        a != b,
    ensures
        ({
            let layout = LayoutView::of(home, daemon_name);
            path::components(layout.upgrade_dir(a)) != path::components(layout.upgrade_dir(b))
        }),
{
    upgrade_dir_is_in_upgrades(home, daemon_name, a);
    upgrade_dir_is_in_upgrades(home, daemon_name, b);
    let layout = LayoutView::of(home, daemon_name);
    let base = path::components(layout.upgrades_dir());
    assert(base.push(a).last() == a);
    assert(base.push(b).last() == b);
}

/// Once `current` has been switched to an upgrade, it leads to that upgrade's
/// directory and the active version is called by the upgrade's name.
pub proof fn switch_is_read_back(home: Seq<char>, daemon_name: Seq<char>, name: Seq<char>)
    requires
        valid_name(name),
    ensures
        ({
            let layout = LayoutView::of(home, daemon_name);
            let link = Some(link_target(Some(name)));
            layout.current_dir(link) == layout.upgrade_dir(name) && layout.current_name(link)
                == name
        }),
{
    let layout = LayoutView::of(home, daemon_name);
    reveal_strlit("upgrades");
    assert(crate::plan::name_char(name[0]));
    assert(layout.current_dir(Some(link_target(Some(name)))) =~= layout.upgrade_dir(name));
    upgrade_dir_is_in_upgrades(home, daemon_name, name);
    assert(path::components(layout.upgrade_dir(name)).last() == name);
    assert(name != seq!['/']) by {
        if name == seq!['/'] {
            assert(name[0] == '/');
        }
    }
}

/// Once `current` has been switched to the genesis version, or as long as it does not
/// exist, the active version is the one called `genesis`.
pub proof fn genesis_is_read_back(home: Seq<char>, daemon_name: Seq<char>)
    ensures
        ({
            let layout = LayoutView::of(home, daemon_name);
            let link = Some(link_target(None));
            layout.current_dir(link) == layout.genesis_dir() && layout.current_dir(None)
                == layout.genesis_dir() && layout.current_name(link) == GENESIS@
                && layout.current_name(None) == GENESIS@
        }),
{
    let layout = LayoutView::of(home, daemon_name);
    reveal_strlit("genesis");
    let name = GENESIS@;
    assert(name.len() == 7);
    assert(!name.contains('/'));
    path::join_adds_one_component(layout.root, name);
    assert(path::components(layout.genesis_dir()).last() == name);
}

/// A binary is written beside its place, so that renaming it stays in one directory: its
/// scratch file lies in the directory that the destination lies in.
pub proof fn scratch_is_beside(dst: Seq<char>)
    requires
        path::parent_of(dst) is Some,
        path::last_name(dst) is Some,
    ensures
        path::components(
            path::joined(path::parent_of(dst)->0, scratch_name(path::last_name(dst)->0)),
        ) == path::components(dst).drop_last().push(scratch_name(path::last_name(dst)->0)),
{
    let name = path::last_name(dst)->0;
    let scratch = scratch_name(name);
    reveal_strlit(".tmp");
    path::last_name_is_plain(dst);
    assert(scratch[scratch.len() - 1] == 'p');
    assert(path::names_something(scratch));
    assert(!scratch.contains('/')) by {
        if scratch.contains('/') {
            let i = choose|i: int| 0 <= i < scratch.len() && scratch[i] == '/';
            if 1 <= i < 1 + name.len() {
                assert(name[i - 1] == '/');
            }
        }
    }
    path::join_adds_one_component(path::parent_of(dst)->0, scratch);
    path::parent_drops_last_component(dst);
}

proof fn kept_or_not(entries: Seq<PlanEntry>, plan: PlanView)
    ensures
        kept_plans(entries).contains(plan) == exists|i: int|
            #![trigger entries[i]]
            0 <= i < entries.len() && entries[i].plan@ == plan && verdict(
                entries[i].dir_name@,
                plan,
            ) == Verdict::Kept,
    decreases entries.len(),
{
    let kept = kept_plans(entries);
    if entries.len() > 0 {
        let front = entries.drop_last();
        let before = kept_plans(front);
        let last = entries.last();
        kept_or_not(front, plan);
        assert(entries[entries.len() - 1] == last);
        if before.contains(plan) {
            let i = choose|i: int|
                #![trigger front[i]]
                0 <= i < front.len() && front[i].plan@ == plan && verdict(front[i].dir_name@, plan)
                    == Verdict::Kept;
            assert(entries[i] == front[i]);
            let k = choose|k: int| 0 <= k < before.len() && before[k] == plan;
            assert(kept[k] == plan);
        }
        if verdict(last.dir_name@, last.plan@) == Verdict::Kept {
            assert(kept[kept.len() - 1] == last.plan@);
        }
        if exists|i: int|
            #![trigger entries[i]]
            0 <= i < entries.len() && entries[i].plan@ == plan && verdict(
                entries[i].dir_name@,
                plan,
            ) == Verdict::Kept {
            let i = choose|i: int|
                #![trigger entries[i]]
                0 <= i < entries.len() && entries[i].plan@ == plan && verdict(
                    entries[i].dir_name@,
                    plan,
                ) == Verdict::Kept;
            if i < front.len() {
                assert(front[i] == entries[i]);
            }
        }
        if kept.contains(plan) {
            let k = choose|k: int| 0 <= k < kept.len() && kept[k] == plan;
            if k < before.len() {
                assert(before[k] == plan);
            }
        }
    }
}

proof fn sorting_keeps_plans(sorted: Seq<PlanView>, plans: Seq<PlanView>, plan: PlanView)
    requires
        sorts(sorted, plans),
        plans.contains(plan),
    ensures
        sorted.contains(plan),
{
    let pred = |p: PlanView| p.name == plan.name;
    let k = choose|k: int| 0 <= k < plans.len() && plans[k] == plan;
    plans.lemma_filter_contains(pred, k);
    assert(called(sorted, plan.name) == called(plans, plan.name));
    sorted.lemma_filter_contains_rev(pred, plan);
}

/// A plan file counts exactly if it is valid and lies in the directory of its own name; a
/// malformed one is ignored, and takes no other with it.
pub proof fn loaded_plans_are_the_kept_ones(
    entries: Seq<PlanEntry>,
    loaded: Seq<PlanView>,
    plan: PlanView,
)
    requires
        sorts(loaded, kept_plans(entries)),
    ensures
        loaded.contains(plan) == exists|i: int|
            #![trigger entries[i]]
            0 <= i < entries.len() && entries[i].plan@ == plan && plan.fault() is None && plan.name
                == entries[i].dir_name@,
{
    let kept = kept_plans(entries);
    kept_or_not(entries, plan);
    if kept.contains(plan) {
        sorting_keeps_plans(loaded, kept, plan);
        let i = choose|i: int|
            #![trigger entries[i]]
            0 <= i < entries.len() && entries[i].plan@ == plan && verdict(
                entries[i].dir_name@,
                plan,
            ) == Verdict::Kept;
        assert(entries[i].plan@ == plan);
    }
    if loaded.contains(plan) {
        let pred = |p: PlanView| p.name == plan.name;
        let k = choose|k: int| 0 <= k < loaded.len() && loaded[k] == plan;
        loaded.lemma_filter_contains(pred, k);
        assert(called(loaded, plan.name) == called(kept, plan.name));
        kept.lemma_filter_contains_rev(pred, plan);
    }
}

/// The directory called `dir_name` holds this plan.
pub open spec fn holds(entries: Seq<PlanEntry>, dir_name: Seq<char>, plan: PlanView) -> bool {
    exists|i: int|
        #![trigger entries[i]]
        0 <= i < entries.len() && entries[i].dir_name@ == dir_name && entries[i].plan@ == plan
}

/// No directory occurs twice.
pub open spec fn distinct_dirs(entries: Seq<PlanEntry>) -> bool {
    forall|i: int, j: int|
        0 <= i < j < entries.len() ==> (#[trigger] entries[i]).dir_name@ != (
        #[trigger] entries[j]).dir_name@
}

/// Saving `plan` turns what the directories hold from `before` to `after`, each listed in
/// any order: the directory called by the plan's name holds the plan, and the others hold
/// what they held. A plan that is refused is not written.
pub open spec fn saves(before: Seq<PlanEntry>, after: Seq<PlanEntry>, plan: PlanView) -> bool {
    forall|dir_name: Seq<char>, held: PlanView| #[trigger]
        holds(after, dir_name, held) == if plan.fault() is None && dir_name == plan.name {
            held == plan
        } else {
            holds(before, dir_name, held)
        }
}

/// The plans that are not called `name`, in their order.
pub open spec fn others(plans: Seq<PlanView>, name: Seq<char>) -> Seq<PlanView> {
    plans.filter(|p: PlanView| p.name != name)
}

proof fn called_others(plans: Seq<PlanView>, gone: Seq<char>, name: Seq<char>)
    ensures
        called(others(plans, gone), name) == if name == gone {
            Seq::<PlanView>::empty()
        } else {
            called(plans, name)
        },
    decreases plans.len(),
{
    let keep = |p: PlanView| p.name != gone;
    let pred = |p: PlanView| p.name == name;
    reveal(Seq::filter);
    if plans.len() == 0 {
        assert(others(plans, gone) =~= Seq::<PlanView>::empty());
        assert(called(others(plans, gone), name) =~= Seq::<PlanView>::empty());
        assert(called(plans, name) =~= Seq::<PlanView>::empty());
    } else {
        let front = plans.drop_last();
        let last = plans.last();
        called_others(front, gone, name);
        assert(plans =~= front.push(last));
        front.lemma_filter_push(last, keep);
        front.lemma_filter_push(last, pred);
        others(front, gone).lemma_filter_push(last, pred);
    }
}

proof fn called_alone(plans: Seq<PlanView>, name: Seq<char>)
    requires
        distinct_names(plans),
    ensures
        forall|p: PlanView| #[trigger]
            plans.contains(p) && p.name == name ==> called(plans, name) == seq![p],
        (forall|p: PlanView| #[trigger] plans.contains(p) ==> p.name != name) ==> called(plans, name)
            == Seq::<PlanView>::empty(),
    decreases plans.len(),
{
    let pred = |p: PlanView| p.name == name;
    reveal(Seq::filter);
    if plans.len() > 0 {
        let front = plans.drop_last();
        let last = plans.last();
        assert(distinct_names(front)) by {
            assert forall|i: int, j: int| 0 <= i < j < front.len() implies (
            #[trigger] front[i]).name != (#[trigger] front[j]).name by {
                assert(plans[i].name != plans[j].name);
            }
        }
        called_alone(front, name);
        assert(plans =~= front.push(last));
        front.lemma_filter_push(last, pred);
        assert(plans[plans.len() - 1] == last);
        assert(plans.contains(last));
        assert forall|p: PlanView| #[trigger] front.contains(p) implies plans.contains(p) && p.name
            != last.name by {
            let i = choose|i: int| 0 <= i < front.len() && front[i] == p;
            assert(plans[i] == p);
        }
        assert forall|p: PlanView| #[trigger] plans.contains(p) && p.name == name implies called(
            plans,
            name,
        ) == seq![p] by {
            if p == last {
                assert(called(front, name) == Seq::<PlanView>::empty());
                assert(called(plans, name) =~= seq![p]);
            } else {
                let i = choose|i: int| 0 <= i < plans.len() && plans[i] == p;
                assert(front[i] == p);
                assert(front.contains(p));
            }
        }
    } else {
        assert(called(plans, name) =~= Seq::<PlanView>::empty());
    }
}

proof fn kept_names_are_distinct(entries: Seq<PlanEntry>)
    requires
        distinct_dirs(entries),
    ensures
        distinct_names(kept_plans(entries)),
    decreases entries.len(),
{
    if entries.len() > 0 {
        let front = entries.drop_last();
        let last = entries.last();
        let before = kept_plans(front);
        let kept = kept_plans(entries);
        assert(distinct_dirs(front)) by {
            assert forall|i: int, j: int| 0 <= i < j < front.len() implies (
            #[trigger] front[i]).dir_name@ != (#[trigger] front[j]).dir_name@ by {
                assert(entries[i].dir_name@ != entries[j].dir_name@);
            }
        }
        kept_names_are_distinct(front);
        assert forall|i: int, j: int| 0 <= i < j < kept.len() implies (#[trigger] kept[i]).name != (
        #[trigger] kept[j]).name by {
            assert(kept[i] == before[i]);
            if j < before.len() {
                assert(kept[j] == before[j]);
            } else {
                let p = before[i];
                assert(before.contains(p));
                kept_or_not(front, p);
                let k = choose|k: int|
                    #![trigger front[k]]
                    0 <= k < front.len() && front[k].plan@ == p && verdict(front[k].dir_name@, p)
                        == Verdict::Kept;
                assert(entries[k] == front[k]);
                assert(entries[k].dir_name@ != entries[entries.len() - 1].dir_name@);
            }
        }
    }
}

proof fn kept_if_held(entries: Seq<PlanEntry>, plan: PlanView)
    ensures
        kept_plans(entries).contains(plan) == (plan.fault() is None && holds(
            entries,
            plan.name,
            plan,
        )),
{
    kept_or_not(entries, plan);
    if kept_plans(entries).contains(plan) {
        let k = choose|k: int|
            #![trigger entries[k]]
            0 <= k < entries.len() && entries[k].plan@ == plan && verdict(
                entries[k].dir_name@,
                plan,
            ) == Verdict::Kept;
        assert(entries[k].dir_name@ == plan.name);
    }
    if plan.fault() is None && holds(entries, plan.name, plan) {
        let k = choose|k: int|
            #![trigger entries[k]]
            0 <= k < entries.len() && entries[k].dir_name@ == plan.name && entries[k].plan@ == plan;
        assert(verdict(entries[k].dir_name@, plan) == Verdict::Kept);
    }
}

/// What is loaded once a plan was saved is what was loaded before, without any plan of that
/// name, and with the saved one, in the order of the names. A plan that is refused leaves
/// everything as it was.
pub proof fn saved_plan_is_loaded(
    before: Seq<PlanEntry>,
    after: Seq<PlanEntry>,
    plan: PlanView,
    loaded: Seq<PlanView>,
    reloaded: Seq<PlanView>,
)
    requires
        distinct_dirs(before),
        distinct_dirs(after),
        saves(before, after, plan),
        sorts(loaded, kept_plans(before)),
        sorts(reloaded, kept_plans(after)),
    ensures
        sorts(
            reloaded,
            if plan.fault() is None {
                others(loaded, plan.name).push(plan)
            } else {
                loaded
            },
        ),
{
    let was = kept_plans(before);
    let now = kept_plans(after);
    let valid = plan.fault() is None;
    let want = if valid {
        others(loaded, plan.name).push(plan)
    } else {
        loaded
    };
    kept_names_are_distinct(before);
    kept_names_are_distinct(after);
    assert forall|name: Seq<char>| #[trigger] called(reloaded, name) == called(want, name) by {
        let pred = |p: PlanView| p.name == name;
        called_others(loaded, plan.name, name);
        others(loaded, plan.name).lemma_filter_push(plan, pred);
        assert(called(reloaded, name) == called(now, name));
        assert(called(loaded, name) == called(was, name));
        called_alone(now, name);
        called_alone(was, name);
        if valid && name == plan.name {
            kept_if_held(after, plan);
            assert(holds(after, name, plan));
            assert(now.contains(plan));
            assert(called(want, name) =~= seq![plan]);
        } else {
            assert forall|p: PlanView| p.name == name implies #[trigger] now.contains(p)
                == was.contains(p) by {
                kept_if_held(after, p);
                kept_if_held(before, p);
                assert(holds(after, name, p) == holds(before, name, p));
            }
            if exists|p: PlanView| #[trigger] was.contains(p) && p.name == name {
                let p = choose|p: PlanView| #[trigger] was.contains(p) && p.name == name;
                assert(now.contains(p));
            } else {
                assert forall|p: PlanView| #[trigger] now.contains(p) implies p.name != name by {
                    if p.name == name {
                        assert(was.contains(p));
                    }
                }
            }
        }
    }
}

} // verus!
