//! Upgrade plans: `upgrades/<name>/upgrade-info.json`.

use vstd::prelude::*;

use crate::json::{Json, JsonView};
use crate::path;
use crate::text;

verus! {

/// A registered node-binary upgrade.
///
/// A plan triggers once the chain reaches `height` **or** the on-chain runtime
/// reaches `spec_version`, whichever happens first. At least one must be set.
/// `height: 0` means "switch as soon as the supervisor sees this plan".
#[derive(Debug, PartialEq, Eq)]
pub struct UpgradePlan {
    pub name: String,
    pub height: Option<u64>,
    pub spec_version: Option<u32>,
    /// Download instructions: either
    /// `{"binaries": {"linux/amd64": "<url>?checksum=sha256:<hex>", ...}}`
    /// or a URL string pointing at a JSON document of that shape.
    pub info: Option<Json>,
}

/// What a plan says.
pub struct PlanView {
    pub name: Seq<char>,
    pub height: Option<u64>,
    pub spec_version: Option<u32>,
    pub info: Option<JsonView>,
}

impl View for UpgradePlan {
    type V = PlanView;

    open spec fn view(&self) -> PlanView {
        PlanView {
            name: self.name@,
            height: self.height,
            spec_version: self.spec_version,
            info: match self.info {
                Some(doc) => Some(doc@),
                None => None,
            },
        }
    }
}

/// What the supervisor last saw on chain.
#[derive(Debug, Clone, Copy, PartialEq, Eq, Structural)]
pub struct ChainStatus {
    pub height: u64,
    pub spec_version: u32,
}

/// Why a plan is refused.
#[derive(Debug, Clone, Copy, PartialEq, Eq, Structural)]
pub enum PlanError {
    /// The name is not made of lower-case letters, digits, `.`, `-` and `_` alone,
    /// or is `.` or `..`.
    InvalidName,
    /// The plan has neither a height nor a `spec_version`.
    NoTrigger,
}

/// A character that an upgrade name may hold.
pub open spec fn name_char(c: char) -> bool {
    ||| 'a' <= c && c <= 'z'
    ||| '0' <= c && c <= '9'
    ||| c == '.'
    ||| c == '-'
    ||| c == '_'
}

/// Upgrade names become directory names, so keep them boring.
pub open spec fn valid_name(name: Seq<char>) -> bool {
    &&& name.len() > 0
    &&& name != seq!['.']
    &&& name != seq!['.', '.']
    &&& forall|i: int| 0 <= i < name.len() ==> name_char(#[trigger] name[i])
}

/// The name under which `raw` is registered, where it is a name at all.
pub open spec fn normal_name(raw: Seq<char>) -> Option<Seq<char>> {
    let name = text::lower(text::trimmed(raw));
    if valid_name(name) {
        Some(name)
    } else {
        None
    }
}

impl PlanView {
    /// Why the plan is refused, if it is.
    pub open spec fn fault(self) -> Option<PlanError> {
        if !valid_name(self.name) {
            Some(PlanError::InvalidName)
        } else if self.height is None && self.spec_version is None {
            Some(PlanError::NoTrigger)
        } else {
            None
        }
    }

    /// The chain has reached the height or the `spec_version` that the plan waits for.
    pub open spec fn triggered(self, status: ChainStatus) -> bool {
        ||| self.height matches Some(h) && status.height >= h
        ||| self.spec_version matches Some(v) && status.spec_version >= v
    }

    /// The plan has triggered and is not among the applied ones.
    pub open spec fn due(self, applied: Set<Seq<char>>, status: ChainStatus) -> bool {
        !applied.contains(self.name) && self.triggered(status)
    }

    /// The height to sort by: a plan without one comes after all that have one.
    pub open spec fn height_rank(self) -> u64 {
        match self.height {
            Some(h) => h,
            None => u64::MAX,
        }
    }

    /// The `spec_version` to sort by: a plan without one comes after all that have one.
    pub open spec fn spec_rank(self) -> u32 {
        match self.spec_version {
            Some(v) => v,
            None => u32::MAX,
        }
    }

    /// The order in which plans that are due at once are applied: by height, then by
    /// `spec_version`, then by name.
    pub open spec fn no_later_than(self, other: PlanView) -> bool {
        ||| self.height_rank() < other.height_rank()
        ||| self.height_rank() == other.height_rank() && self.spec_rank() < other.spec_rank()
        ||| self.height_rank() == other.height_rank() && self.spec_rank() == other.spec_rank()
            && text::at_most(self.name, other.name)
    }

    /// When the plan triggers, in words.
    pub open spec fn trigger_text(self) -> Seq<char> {
        match (self.height, self.spec_version) {
            (Some(h), Some(v)) => "height >= "@ + text::decimal(h as nat) + " or spec_version >= "@
                + text::decimal(v as nat),
            (Some(h), None) => if h == 0 {
                "immediate"@
            } else {
                "height >= "@ + text::decimal(h as nat)
            },
            (None, Some(v)) => "spec_version >= "@ + text::decimal(v as nat),
            (None, None) => "never (invalid)"@,
        }
    }
}

/// The set of the names in `names`.
pub open spec fn name_set(names: Seq<String>) -> Set<Seq<char>> {
    text::texts(names).to_set()
}

/// What each of `plans` says.
pub open spec fn plan_views(plans: Seq<UpgradePlan>) -> Seq<PlanView> {
    plans.map_values(|p: UpgradePlan| p@)
}

/// `plans[i]` is the one to apply next: it is due, no plan that is due comes before
/// it, and of equals it is the first in the list.
pub open spec fn is_next(
    plans: Seq<PlanView>,
    applied: Set<Seq<char>>,
    status: ChainStatus,
    i: int,
) -> bool {
    &&& 0 <= i < plans.len()
    &&& plans[i].due(applied, status)
    &&& forall|j: int|
        0 <= j < plans.len() && (#[trigger] plans[j]).due(applied, status)
            ==> plans[i].no_later_than(plans[j])
    &&& forall|j: int|
        0 <= j < i && (#[trigger] plans[j]).due(applied, status) ==> !plans[j].no_later_than(
            plans[i],
        )
}

/// No plan is due.
pub open spec fn none_due(
    plans: Seq<PlanView>,
    applied: Set<Seq<char>>,
    status: ChainStatus,
) -> bool {
    forall|j: int| 0 <= j < plans.len() ==> !(#[trigger] plans[j]).due(applied, status)
}

fn is_name_char(c: char) -> (r: bool)
    ensures
        r == name_char(c),
{
    ('a' <= c && c <= 'z') || ('0' <= c && c <= '9') || c == '.' || c == '-' || c == '_'
}

/// Refuses a name that is not fit to be a directory name.
pub fn validate_name(name: &str) -> (r: Result<(), PlanError>)
    ensures
        r == if valid_name(name@) {
            Ok::<(), PlanError>(())
        } else {
            Err(PlanError::InvalidName)
        },
{
    let v = text::chars_of(name);
    if v.len() == 0 {
        return Err(PlanError::InvalidName);
    }
    if v.len() == 1 && v[0] == '.' {
        assert(name@ =~= seq!['.']);
        return Err(PlanError::InvalidName);
    }
    if v.len() == 2 && v[0] == '.' && v[1] == '.' {
        assert(name@ =~= seq!['.', '.']);
        return Err(PlanError::InvalidName);
    }
    let mut i: usize = 0;
    while i < v.len()
        invariant
            i <= v@.len(),
            v@ == name@,
            forall|j: int| 0 <= j < i ==> name_char(#[trigger] v@[j]),
        decreases v@.len() - i,
    {
        if !is_name_char(v[i]) {
            assert(!name_char(name@[i as int]));
            return Err(PlanError::InvalidName);
        }
        i = i + 1;
    }
    Ok(())
}

/// Upgrade names are registered without surrounding white space and in lower case.
pub fn normalize_name(name: &str) -> (r: Result<String, PlanError>)
    ensures
        match r {
            Ok(n) => normal_name(name@) == Some(n@),
            Err(e) => normal_name(name@) is None && e == PlanError::InvalidName,
        },
{
    let trimmed = text::trim(name);
    let n = text::to_lower(trimmed.as_str());
    match validate_name(n.as_str()) {
        Ok(()) => Ok(n),
        Err(e) => Err(e),
    }
}

/// Whether `name` is in `names`.
pub fn contains_name(names: &Vec<String>, name: &str) -> (r: bool)
    ensures
        r == name_set(names@).contains(name@),
{
    let mut i: usize = 0;
    while i < names.len()
        invariant
            i <= names@.len(),
            forall|j: int| 0 <= j < i ==> #[trigger] names@[j]@ != name@,
        decreases names@.len() - i,
    {
        if text::same(names[i].as_str(), name) {
            assert(text::texts(names@)[i as int] == name@);
            return true;
        }
        i = i + 1;
    }
    assert(!text::texts(names@).contains(name@)) by {
        if text::texts(names@).contains(name@) {
            let j = choose|j: int| 0 <= j < names@.len() && text::texts(names@)[j] == name@;
            assert(names@[j]@ == name@);
        }
    }
    false
}

impl UpgradePlan {
    /// Refuses a plan with a bad name, or with nothing that could trigger it.
    pub fn validate(&self) -> (r: Result<(), PlanError>)
        ensures
            match self@.fault() {
                None => r == Ok::<(), PlanError>(()),
                Some(e) => r == Err::<(), PlanError>(e),
            },
    {
        validate_name(self.name.as_str())?;
        if self.height.is_none() && self.spec_version.is_none() {
            return Err(PlanError::NoTrigger);
        }
        Ok(())
    }

    /// Whether the chain has reached what the plan waits for.
    pub fn is_triggered(&self, status: &ChainStatus) -> (r: bool)
        ensures
            r == self@.triggered(*status),
    {
        let by_height = match self.height {
            Some(h) => status.height >= h,
            None => false,
        };
        let by_spec = match self.spec_version {
            Some(v) => status.spec_version >= v,
            None => false,
        };
        by_height || by_spec
    }

    /// When the plan triggers, in words.
    pub fn describe_trigger(&self) -> (r: String)
        ensures
            r@ == self@.trigger_text(),
    {
        match (self.height, self.spec_version) {
            (Some(h), Some(v)) => {
                let mut r = "height >= ".to_string();
                r.append(text::decimal_text(h).as_str());
                r.append(" or spec_version >= ");
                r.append(text::decimal_text(v as u64).as_str());
                r
            },
            (Some(h), None) => {
                if h == 0 {
                    return "immediate".to_string();
                }
                let mut r = "height >= ".to_string();
                r.append(text::decimal_text(h).as_str());
                r
            },
            (None, Some(v)) => {
                let mut r = "spec_version >= ".to_string();
                r.append(text::decimal_text(v as u64).as_str());
                r
            },
            (None, None) => "never (invalid)".to_string(),
        }
    }

    /// A plan that says the same.
    pub fn copy(&self) -> (r: UpgradePlan)
        ensures
            r@ == self@,
    {
        let info = match &self.info {
            Some(doc) => Some(doc.copy()),
            None => None,
        };
        UpgradePlan {
            name: self.name.clone(),
            height: self.height,
            spec_version: self.spec_version,
            info,
        }
    }

    fn ranks(&self) -> (r: (u64, u32))
        ensures
            r.0 == self@.height_rank(),
            r.1 == self@.spec_rank(),
    {
        let h: u64 = match self.height {
            Some(h) => h,
            None => u64::MAX,
        };
        let v: u32 = match self.spec_version {
            Some(v) => v,
            None => u32::MAX,
        };
        (h, v)
    }

    /// Whether this plan is applied no later than `other` where both are due.
    fn goes_before(&self, other: &UpgradePlan) -> (r: bool)
        ensures
            r == self@.no_later_than(other@),
    {
        let a = self.ranks();
        let b = other.ranks();
        if a.0 != b.0 {
            a.0 < b.0
        } else if a.1 != b.1 {
            a.1 < b.1
        } else {
            text::in_order(self.name.as_str(), other.name.as_str())
        }
    }
}

/// The first not-yet-applied plan whose trigger has fired. When several fire at
/// once (e.g. a node catching up after downtime) they are applied one at a time
/// in (height, spec_version) order.
pub fn next_triggered<'a>(
    plans: &'a [UpgradePlan],
    applied: &Vec<String>,
    status: &ChainStatus,
) -> (r: Option<&'a UpgradePlan>)
    ensures
        match r {
            Some(p) => exists|i: int|
                #![trigger plans@[i]]
                is_next(plan_views(plans@), name_set(applied@), *status, i) && *p == plans@[i],
            None => none_due(plan_views(plans@), name_set(applied@), *status),
        },
{
    let ghost views = plan_views(plans@);
    let ghost done = name_set(applied@);
    let mut best: Option<usize> = None;
    let mut i: usize = 0;
    while i < plans.len()
        invariant
            i <= plans@.len(),
            views == plan_views(plans@),
            done == name_set(applied@),
            best matches Some(b) ==> b < i && is_next(views.take(i as int), done, *status, b as int),
            best is None ==> none_due(views.take(i as int), done, *status),
        decreases plans@.len() - i,
    {
        let ghost before = views.take(i as int);
        let ghost now = views.take(i + 1);
        assert(forall|j: int| 0 <= j < i ==> before[j] == now[j]);
        assert(now[i as int] == plans@[i as int]@);
        let due = !contains_name(applied, plans[i].name.as_str()) && plans[i].is_triggered(status);
        if due {
            match best {
                None => {
                    best = Some(i);
                    proof {
                        now[i as int].order_is_total(now[i as int]);
                    }
                },
                Some(b) => {
                    assert(plans@[b as int]@ == before[b as int]);
                    if !plans[b].goes_before(&plans[i]) {
                        best = Some(i);
                        proof {
                            now[i as int].order_is_total(now[i as int]);
                            let mid = before[b as int];
                            assert forall|j: int|
                                0 <= j < now.len() && (#[trigger] now[j]).due(
                                    done,
                                    *status,
                                ) implies now[i as int].no_later_than(now[j]) by {
                                if j < i {
                                    assert(before[j].due(done, *status));
                                    now[i as int].order_is_total(mid);
                                    now[i as int].order_is_transitive(mid, now[j]);
                                }
                            }
                            assert forall|j: int|
                                0 <= j < i && (#[trigger] now[j]).due(
                                    done,
                                    *status,
                                ) implies !now[j].no_later_than(now[i as int]) by {
                                assert(before[j].due(done, *status));
                                if now[j].no_later_than(now[i as int]) {
                                    mid.order_is_transitive(now[j], now[i as int]);
                                }
                            }
                        }
                    }
                },
            }
        }
        i = i + 1;
    }
    assert(views.take(views.len() as int) == views);
    match best {
        Some(b) => {
            assert(plans@[b as int]@ == views[b as int]);
            Some(&plans[b])
        },
        None => None,
    }
}

impl PlanView {
    /// Of any two plans, one goes no later than the other.
    pub proof fn order_is_total(self, other: PlanView)
        ensures
            self.no_later_than(other) || other.no_later_than(self),
    {
        text::at_most_total(self.name, other.name);
    }

    /// The order of plans is transitive.
    pub proof fn order_is_transitive(self, mid: PlanView, other: PlanView)
        requires
            self.no_later_than(mid),
            mid.no_later_than(other),
        ensures
            self.no_later_than(other),
    {
        if self.height_rank() == mid.height_rank() && mid.height_rank() == other.height_rank()
            && self.spec_rank() == mid.spec_rank() && mid.spec_rank() == other.spec_rank() {
            text::at_most_transitive(self.name, mid.name, other.name);
        }
    }

    /// A trigger that has fired stays fired as the chain goes on.
    pub proof fn stays_triggered(self, earlier: ChainStatus, later: ChainStatus)
        requires
            self.triggered(earlier),
            earlier.height <= later.height,
            earlier.spec_version <= later.spec_version,
        ensures
            self.triggered(later),
    {
    }

    /// A plan that waits for a height and for a `spec_version` triggers on whichever comes
    /// first: it has triggered exactly if it would have with one of the two alone.
    pub proof fn triggers_on_whichever_comes_first(self, status: ChainStatus)
        ensures
            self.triggered(status) == (PlanView { spec_version: None, ..self }.triggered(status)
                || PlanView { height: None, ..self }.triggered(status)),
    {
    }

    /// A plan with height 0 has triggered whatever the chain says.
    pub proof fn zero_height_is_immediate(self, status: ChainStatus)
        requires
            self.height == Some(0u64),
        ensures
            self.triggered(status),
    {
    }

    /// A plan that passes validation can trigger: there is a status that it waits for.
    pub proof fn valid_plan_can_trigger(self)
        requires
            self.fault() is None,
        ensures
            exists|status: ChainStatus| self.triggered(status),
    {
        let status = ChainStatus { height: u64::MAX, spec_version: u32::MAX };
        assert(self.triggered(status));
    }
}

/// The plan to apply next is never in doubt.
pub proof fn next_is_unique(
    plans: Seq<PlanView>,
    applied: Set<Seq<char>>,
    status: ChainStatus,
    i: int,
    j: int,
)
    requires
        is_next(plans, applied, status, i),
        is_next(plans, applied, status, j),
    ensures
        i == j,
{
    assert(plans[i].no_later_than(plans[j]));
    assert(plans[j].no_later_than(plans[i]));
}

/// Plans that are due at once are applied one at a time and in order: once the next
/// one is recorded as applied, it is not chosen again, and the one chosen after it
/// comes no earlier in the order.
pub proof fn due_plans_go_in_order(
    plans: Seq<PlanView>,
    applied: Set<Seq<char>>,
    status: ChainStatus,
    first: int,
    second: int,
)
    requires
        is_next(plans, applied, status, first),
        is_next(plans, applied.insert(plans[first].name), status, second),
    ensures
        plans[first].name != plans[second].name,
        plans[first].no_later_than(plans[second]),
{
    assert(plans[second].due(applied, status));
}

/// As long as a plan is due, there is a next one.
pub proof fn due_plan_has_next(plans: Seq<PlanView>, applied: Set<Seq<char>>, status: ChainStatus)
    requires
        !none_due(plans, applied, status),
    ensures
        exists|i: int| is_next(plans, applied, status, i),
    decreases plans.len(),
{
    let n = plans.len() - 1;
    let front = plans.drop_last();
    if none_due(front, applied, status) {
        assert(plans[n].due(applied, status)) by {
            let j = choose|j: int|
                0 <= j < plans.len() && (#[trigger] plans[j]).due(applied, status);
            if j < n {
                assert(front[j].due(applied, status));
            }
        }
        plans[n].order_is_total(plans[n]);
        assert forall|j: int|
            0 <= j < plans.len() && (#[trigger] plans[j]).due(applied, status) implies j == n by {
            if j < n {
                assert(front[j].due(applied, status));
            }
        }
        assert(is_next(plans, applied, status, n));
    } else {
        due_plan_has_next(front, applied, status);
        let b = choose|b: int| is_next(front, applied, status, b);
        assert(plans[b] == front[b]);
        assert(forall|j: int| 0 <= j < n ==> front[j] == #[trigger] plans[j]);
        if plans[n].due(applied, status) && !plans[b].no_later_than(plans[n]) {
            plans[n].order_is_total(plans[b]);
            plans[n].order_is_total(plans[n]);
            assert forall|j: int|
                0 <= j < plans.len() && (#[trigger] plans[j]).due(
                    applied,
                    status,
                ) implies plans[n].no_later_than(plans[j]) by {
                if j < n {
                    assert(front[j].due(applied, status));
                    plans[n].order_is_transitive(plans[b], plans[j]);
                }
            }
            assert forall|j: int|
                0 <= j < n && (#[trigger] plans[j]).due(
                    applied,
                    status,
                ) implies !plans[j].no_later_than(plans[n]) by {
                assert(front[j].due(applied, status));
                if plans[j].no_later_than(plans[n]) {
                    plans[b].order_is_transitive(plans[j], plans[n]);
                }
            }
            assert(is_next(plans, applied, status, n));
        } else {
            assert(is_next(plans, applied, status, b));
        }
    }
}

/// No two plans have the same name.
pub open spec fn distinct_names(plans: Seq<PlanView>) -> bool {
    forall|i: int, j: int|
        0 <= i < j < plans.len() ==> (#[trigger] plans[i]).name != (#[trigger] plans[j]).name
}

/// `picks` is what choosing the next plan again and again gives, each one recorded as
/// applied, until none is due.
pub open spec fn catches_up(
    plans: Seq<PlanView>,
    applied: Set<Seq<char>>,
    status: ChainStatus,
    picks: Seq<PlanView>,
) -> bool
    decreases picks.len(),
{
    if picks.len() == 0 {
        none_due(plans, applied, status)
    } else {
        &&& exists|i: int| #[trigger] is_next(plans, applied, status, i) && plans[i] == picks[0]
        &&& catches_up(plans, applied.insert(picks[0].name), status, picks.drop_first())
    }
}

/// Choosing the next plan again and again gives exactly the plans that are due, each once
/// and in order.
pub proof fn catching_up_takes_all_in_order(
    plans: Seq<PlanView>,
    applied: Set<Seq<char>>,
    status: ChainStatus,
    picks: Seq<PlanView>,
)
    requires
        distinct_names(plans),
        catches_up(plans, applied, status, picks),
    ensures
        forall|p: PlanView| #[trigger]
            picks.contains(p) == (plans.contains(p) && p.due(applied, status)),
        distinct_names(picks),
        forall|i: int, j: int|
            0 <= i <= j < picks.len() ==> (#[trigger] picks[i]).no_later_than(#[trigger] picks[j]),
    decreases picks.len(),
{
    if picks.len() == 0 {
        assert forall|p: PlanView| #[trigger] picks.contains(p) == (plans.contains(p) && p.due(
            applied,
            status,
        )) by {
            if plans.contains(p) {
                let j = choose|j: int| 0 <= j < plans.len() && plans[j] == p;
                assert(!plans[j].due(applied, status));
            }
        }
    } else {
        let first = picks[0];
        let tail = picks.drop_first();
        let after = applied.insert(first.name);
        let n = choose|i: int| #[trigger] is_next(plans, applied, status, i) && plans[i] == first;
        catching_up_takes_all_in_order(plans, after, status, tail);
        assert forall|p: PlanView| #[trigger] picks.contains(p) == (plans.contains(p) && p.due(
            applied,
            status,
        )) by {
            assert(tail.contains(p) == (plans.contains(p) && p.due(after, status)));
            if picks.contains(p) {
                let k = choose|k: int| 0 <= k < picks.len() && picks[k] == p;
                if k == 0 {
                    assert(plans[n] == p);
                } else {
                    assert(tail[k - 1] == p);
                }
            }
            if plans.contains(p) && p.due(applied, status) {
                if p.name == first.name {
                    let k = choose|k: int| 0 <= k < plans.len() && plans[k] == p;
                    assert(k == n);
                    assert(picks[0] == p);
                } else {
                    let k = choose|k: int| 0 <= k < tail.len() && tail[k] == p;
                    assert(picks[k + 1] == p);
                }
            }
        }
        assert forall|j: int| 0 < j < picks.len() implies first.no_later_than(
            #[trigger] picks[j],
        ) && first.name != picks[j].name by {
            let q = picks[j];
            assert(tail[j - 1] == q);
            assert(tail.contains(q));
            let k = choose|k: int| 0 <= k < plans.len() && plans[k] == q;
            assert(plans[k].due(applied, status));
        }
        assert forall|i: int, j: int| 0 <= i < j < picks.len() implies (#[trigger] picks[i]).name
            != (#[trigger] picks[j]).name by {
            if i > 0 {
                assert(tail[i - 1] == picks[i]);
                assert(tail[j - 1] == picks[j]);
            }
        }
        assert forall|i: int, j: int| 0 <= i <= j < picks.len() implies (
        #[trigger] picks[i]).no_later_than(#[trigger] picks[j]) by {
            if i > 0 {
                assert(tail[i - 1] == picks[i]);
                assert(tail[j - 1] == picks[j]);
            } else if j == 0 {
                first.order_is_total(first);
            }
        }
    }
}

/// In what order the plans are listed makes no difference to the order in which they are
/// applied.
pub proof fn list_order_does_not_matter(
    plans: Seq<PlanView>,
    others: Seq<PlanView>,
    applied: Set<Seq<char>>,
    status: ChainStatus,
    picks: Seq<PlanView>,
    other_picks: Seq<PlanView>,
)
    requires
        distinct_names(plans),
        forall|p: PlanView| #[trigger] plans.contains(p) == others.contains(p),
        catches_up(plans, applied, status, picks),
        catches_up(others, applied, status, other_picks),
    ensures
        picks == other_picks,
    decreases picks.len(),
{
    if picks.len() == 0 {
        if other_picks.len() > 0 {
            let j = choose|j: int| #[trigger]
                is_next(others, applied, status, j) && others[j] == other_picks[0];
            assert(plans.contains(others[j])) by {
                assert(others.contains(others[j]));
            }
            let i = choose|i: int| 0 <= i < plans.len() && plans[i] == others[j];
            assert(!plans[i].due(applied, status));
        }
        assert(picks =~= other_picks);
    } else {
        let i = choose|i: int| #[trigger]
            is_next(plans, applied, status, i) && plans[i] == picks[0];
        assert(others.contains(plans[i])) by {
            assert(plans.contains(plans[i]));
        }
        let there = choose|k: int| 0 <= k < others.len() && others[k] == plans[i];
        assert(others[there].due(applied, status));
        assert(other_picks.len() > 0);
        let j = choose|j: int| #[trigger]
            is_next(others, applied, status, j) && others[j] == other_picks[0];
        assert(plans.contains(others[j])) by {
            assert(others.contains(others[j]));
        }
        let here = choose|k: int| 0 <= k < plans.len() && plans[k] == others[j];
        assert(plans[here].due(applied, status));
        assert(plans[i].no_later_than(plans[here]));
        assert(others[j].no_later_than(others[there]));
        text::at_most_antisymmetric(plans[i].name, plans[here].name);
        assert(i == here);
        list_order_does_not_matter(
            plans,
            others,
            applied.insert(picks[0].name),
            status,
            picks.drop_first(),
            other_picks.drop_first(),
        );
        assert(picks =~= seq![picks[0]] + picks.drop_first());
        assert(other_picks =~= seq![other_picks[0]] + other_picks.drop_first());
    }
}

/// How many plans are due.
pub open spec fn due_count(
    plans: Seq<PlanView>,
    applied: Set<Seq<char>>,
    status: ChainStatus,
) -> nat
    decreases plans.len(),
{
    if plans.len() == 0 {
        0
    } else {
        due_count(plans.drop_last(), applied, status) + if plans.last().due(applied, status) {
            1nat
        } else {
            0nat
        }
    }
}

proof fn applying_leaves_fewer_due(
    plans: Seq<PlanView>,
    applied: Set<Seq<char>>,
    status: ChainStatus,
    name: Seq<char>,
)
    ensures
        due_count(plans, applied.insert(name), status) <= due_count(plans, applied, status),
        forall|i: int|
            0 <= i < plans.len() && (#[trigger] plans[i]).name == name && plans[i].due(
                applied,
                status,
            ) ==> due_count(plans, applied.insert(name), status) < due_count(
                plans,
                applied,
                status,
            ),
    decreases plans.len(),
{
    if plans.len() > 0 {
        let front = plans.drop_last();
        applying_leaves_fewer_due(front, applied, status, name);
        assert forall|i: int|
            0 <= i < plans.len() && (#[trigger] plans[i]).name == name && plans[i].due(
                applied,
                status,
            ) implies due_count(plans, applied.insert(name), status) < due_count(
            plans,
            applied,
            status,
        ) by {
            if i < front.len() {
                assert(front[i] == plans[i]);
            }
        }
    }
}

/// Choosing the next plan again and again comes to an end.
pub proof fn catching_up_ends(
    plans: Seq<PlanView>,
    applied: Set<Seq<char>>,
    status: ChainStatus,
) -> (picks: Seq<PlanView>)
    ensures
        catches_up(plans, applied, status, picks),
    decreases due_count(plans, applied, status),
{
    if none_due(plans, applied, status) {
        Seq::empty()
    } else {
        due_plan_has_next(plans, applied, status);
        let i = choose|i: int| is_next(plans, applied, status, i);
        let first = plans[i];
        applying_leaves_fewer_due(plans, applied, status, first.name);
        let tail = catching_up_ends(plans, applied.insert(first.name), status);
        let picks = seq![first] + tail;
        assert(picks.drop_first() =~= tail);
        assert(picks[0] == first);
        picks
    }
}

proof fn valid_chars_are_normal(name: Seq<char>)
    requires
        valid_name(name),
    ensures
        text::lower(text::trimmed(name)) == name,
{
    assert(name_char(name[0]));
    assert(name_char(name[name.len() - 1]));
    assert(text::trim_front(name) == name);
    assert(text::trim_back(name) == name);
    assert forall|i: int| 0 <= i < name.len() implies text::lower(name)[i] == name[i] by {
        assert(name_char(name[i]));
    }
    assert(text::lower(name) =~= name);
}

/// A registered name is its own normal form: registering it again changes nothing.
pub proof fn normal_name_is_stable(raw: Seq<char>)
    requires
        normal_name(raw) is Some,
    ensures
        valid_name(normal_name(raw)->0),
        normal_name(normal_name(raw)->0) == normal_name(raw),
{
    valid_chars_are_normal(normal_name(raw)->0);
}

/// A valid name is a single path component: no directory joined with it leads
/// anywhere but to an entry of that directory.
pub proof fn valid_name_stays_in_directory(dir: Seq<char>, name: Seq<char>)
    requires
        valid_name(name),
    ensures
        path::components(path::joined(dir, name)) == path::components(dir).push(name),
{
    assert(!name.contains('/')) by {
        if name.contains('/') {
            let i = choose|i: int| 0 <= i < name.len() && name[i] == '/';
            assert(name_char(name[i]));
        }
    }
    path::join_adds_one_component(dir, name);
}

} // verus!
