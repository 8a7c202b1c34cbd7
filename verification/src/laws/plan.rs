//! Which upgrade names are accepted, when a plan triggers, and which plan goes first.

use vstd::prelude::*;

use crate::plan::{is_next, normal_name, valid_name, ChainStatus, PlanError, PlanView};
use crate::text;

verus! {

/// `a` is `b` but for the case of ASCII letters, where `b` is in lower case.
pub open spec fn lower_case_of(a: Seq<char>, b: Seq<char>) -> bool {
    a.len() == b.len() && forall|i: int|
        #![trigger a[i]]
        0 <= i < a.len() ==> if 'A' <= a[i] && a[i] <= 'Z' {
            b[i] as int == a[i] as int + 32
        } else {
            b[i] == a[i]
        }
}

/// An upgrade name is made of lower-case letters, digits, dots, hyphens and underscores, and
/// is not empty, `.` or `..`.
pub proof fn names_are_plain(name: Seq<char>)
    ensures
        valid_name(name) <==> name.len() > 0 && name != "."@ && name != ".."@ && forall|i: int|
            0 <= i < name.len() ==> "abcdefghijklmnopqrstuvwxyz0123456789.-_"@.contains(
                #[trigger] name[i],
            ),
{
    let allowed = "abcdefghijklmnopqrstuvwxyz0123456789.-_"@;
    reveal_strlit("abcdefghijklmnopqrstuvwxyz0123456789.-_");
    reveal_strlit(".");
    reveal_strlit("..");
    assert("."@ =~= seq!['.']);
    assert(".."@ =~= seq!['.', '.']);
    assert forall|c: char| allowed.contains(c) == #[trigger] crate::plan::name_char(c) by {
        if crate::plan::name_char(c) {
            let k: int = if 'a' <= c && c <= 'z' {
                c as int - 'a' as int
            } else if '0' <= c && c <= '9' {
                c as int - '0' as int + 26
            } else if c == '.' {
                36
            } else if c == '-' {
                37
            } else {
                38
            };
            assert(allowed[k] == c);
        }
    }
    if valid_name(name) {
        assert forall|i: int| 0 <= i < name.len() implies allowed.contains(#[trigger] name[i]) by {
            assert(crate::plan::name_char(name[i]));
        }
    }
    if name.len() > 0 && name != "."@ && name != ".."@ && forall|i: int|
        0 <= i < name.len() ==> allowed.contains(#[trigger] name[i]) {
        assert forall|i: int| 0 <= i < name.len() implies crate::plan::name_char(
            #[trigger] name[i],
        ) by {
            assert(allowed.contains(name[i]));
        }
    }
}

proof fn lower_is_lower_case(s: Seq<char>)
    ensures
        lower_case_of(s, text::lower(s)),
{
    assert forall|i: int| #![trigger s[i]] 0 <= i < s.len() implies if 'A' <= s[i] && s[i] <= 'Z' {
        text::lower(s)[i] as int == s[i] as int + 32
    } else {
        text::lower(s)[i] == s[i]
    } by {
        assert(text::lower(s)[i] == text::lower_char(s[i]));
    }
}

proof fn lower_case_is_lower(s: Seq<char>, t: Seq<char>)
    requires
        lower_case_of(s, t),
    ensures
        text::lower(s) == t,
{
    assert forall|i: int| 0 <= i < s.len() implies text::lower(s)[i] == t[i] by {
        assert(text::lower(s)[i] == text::lower_char(s[i]));
    }
    assert(text::lower(s) =~= t);
}

proof fn front_is_trimmed(space: Seq<char>, s: Seq<char>)
    requires
        forall|i: int| 0 <= i < space.len() ==> " \t\r\n"@.contains(#[trigger] space[i]),
    ensures
        text::trim_front(space + s) == text::trim_front(s),
    decreases space.len(),
{
    reveal_strlit(" \t\r\n");
    if space.len() > 0 {
        assert(" \t\r\n"@.contains(space[0]));
        let rest = space.drop_first();
        assert forall|i: int| 0 <= i < rest.len() implies " \t\r\n"@.contains(
            #[trigger] rest[i],
        ) by {
            assert(rest[i] == space[i + 1]);
        }
        front_is_trimmed(rest, s);
        assert((space + s).drop_first() =~= rest + s);
    } else {
        assert(space + s =~= s);
    }
}

proof fn back_is_trimmed(s: Seq<char>, space: Seq<char>)
    requires
        forall|i: int| 0 <= i < space.len() ==> " \t\r\n"@.contains(#[trigger] space[i]),
    ensures
        text::trim_back(s + space) == text::trim_back(s),
    decreases space.len(),
{
    reveal_strlit(" \t\r\n");
    if space.len() > 0 {
        assert(" \t\r\n"@.contains(space[space.len() - 1]));
        let rest = space.drop_last();
        assert forall|i: int| 0 <= i < rest.len() implies " \t\r\n"@.contains(
            #[trigger] rest[i],
        ) by {
            assert(rest[i] == space[i]);
        }
        back_is_trimmed(s, rest);
        assert((s + space).drop_last() =~= s + rest);
    } else {
        assert(s + space =~= s);
    }
}

/// However an operator writes a name, with blanks around it and in upper or lower case, it is
/// the same upgrade that is meant.
pub proof fn names_are_taken_without_blanks_and_case(
    front: Seq<char>,
    raw: Seq<char>,
    back: Seq<char>,
    name: Seq<char>,
)
    requires
        valid_name(name),
        lower_case_of(raw, name),
        forall|i: int| 0 <= i < front.len() ==> " \t\r\n"@.contains(#[trigger] front[i]),
        forall|i: int| 0 <= i < back.len() ==> " \t\r\n"@.contains(#[trigger] back[i]),
    ensures
        normal_name(front + raw + back) == Some(name),
{
    front_is_trimmed(front, raw + back);
    assert(front + raw + back =~= front + (raw + back));
    assert(crate::plan::name_char(name[0]));
    assert(crate::plan::name_char(name[name.len() - 1]));
    assert(raw[0] == raw[0] && raw[raw.len() - 1] == raw[raw.len() - 1]);
    assert((raw + back)[0] == raw[0]);
    assert(text::trim_front(raw + back) == raw + back);
    back_is_trimmed(raw, back);
    assert(text::trim_back(raw) == raw);
    lower_case_is_lower(raw, name);
}

proof fn trim_front_takes_a_tail(s: Seq<char>)
    ensures
        text::trim_front(s).len() <= s.len(),
        text::trim_front(s) == s.subrange(s.len() - text::trim_front(s).len(), s.len() as int),
    decreases s.len(),
{
    if s.len() > 0 && text::is_white(s[0]) {
        trim_front_takes_a_tail(s.drop_first());
        let t = text::trim_front(s);
        assert(s.drop_first().subrange(s.len() - 1 - t.len(), s.len() - 1) =~= s.subrange(
            s.len() - t.len(),
            s.len() as int,
        ));
    } else {
        assert(s.subrange(0, s.len() as int) =~= s);
    }
}

proof fn trim_back_takes_a_head(s: Seq<char>)
    ensures
        text::trim_back(s).len() <= s.len(),
        text::trim_back(s) == s.subrange(0, text::trim_back(s).len() as int),
    decreases s.len(),
{
    if s.len() > 0 && text::is_white(s.last()) {
        trim_back_takes_a_head(s.drop_last());
        let t = text::trim_back(s);
        assert(s.drop_last().subrange(0, t.len() as int) =~= s.subrange(0, t.len() as int));
    } else {
        assert(s.subrange(0, s.len() as int) =~= s);
    }
}

/// A name that is accepted is a part of what the operator wrote, in lower case: nothing is
/// made up.
pub proof fn names_are_not_made_up(raw: Seq<char>)
    ensures
        normal_name(raw) matches Some(name) ==> exists|i: int|
            #![trigger raw.subrange(i, i + name.len())]
            0 <= i <= i + name.len() <= raw.len() && lower_case_of(
                raw.subrange(i, i + name.len()),
                name,
            ),
{
    if let Some(name) = normal_name(raw) {
        let mid = text::trim_front(raw);
        let t = text::trimmed(raw);
        trim_front_takes_a_tail(raw);
        trim_back_takes_a_head(mid);
        lower_is_lower_case(t);
        let i = raw.len() - mid.len();
        assert(raw.subrange(i, i + name.len()) =~= t);
    }
}

/// A plan is accepted exactly if it has a fit name and something that can trigger it, and the
/// name is looked at first.
pub proof fn plans_are_accepted_with_a_name_and_a_trigger(plan: PlanView)
    ensures
        plan.fault() is None <==> valid_name(plan.name) && (plan.height is Some
            || plan.spec_version is Some),
        !valid_name(plan.name) <==> plan.fault() == Some(PlanError::InvalidName),
{
}

/// A plan that waits for a height alone has not triggered one block below it, and has at it,
/// whatever runtime the chain has.
pub proof fn height_triggers_at_its_block(plan: PlanView, h: u64, spec_version: u32)
    requires
        plan.height == Some(h),
        plan.spec_version is None,
    ensures
        plan.triggered(ChainStatus { height: h, spec_version }),
        h > 0 ==> !plan.triggered(ChainStatus { height: (h - 1) as u64, spec_version }),
{
}

/// A plan that waits for a `spec_version` alone has not triggered one version below it, and
/// has at it, however long the chain is.
pub proof fn spec_version_triggers_at_its_runtime(plan: PlanView, v: u32, height: u64)
    requires
        plan.height is None,
        plan.spec_version == Some(v),
    ensures
        plan.triggered(ChainStatus { height, spec_version: v }),
        v > 0 ==> !plan.triggered(ChainStatus { height, spec_version: (v - 1) as u32 }),
{
}

/// A plan without a trigger never triggers.
pub proof fn nothing_triggers_without_a_trigger(plan: PlanView, status: ChainStatus)
    requires
        plan.height is None,
        plan.spec_version is None,
    ensures
        !plan.triggered(status),
{
}

/// As long as nothing was applied, the plans that are due are those that have triggered; one
/// that is applied is not due any more, and changes nothing for the others.
pub proof fn due_until_applied(
    plan: PlanView,
    applied: Set<Seq<char>>,
    name: Seq<char>,
    status: ChainStatus,
)
    ensures
        plan.due(Set::empty(), status) == plan.triggered(status),
        plan.due(applied.insert(name), status) == (plan.name != name && plan.due(applied, status)),
{
}

/// Of two plans that wait for heights, the one with the lower height goes strictly before the
/// other, whatever else they say.
pub proof fn lower_height_goes_first(a: PlanView, b: PlanView, x: u64, y: u64)
    requires
        a.height == Some(x),
        b.height == Some(y),
        x < y,
    ensures
        a.no_later_than(b),
        !b.no_later_than(a),
{
}

/// A plan that waits for a height goes strictly before one that does not. The highest height
/// there is counts as none.
pub proof fn height_goes_before_none(a: PlanView, b: PlanView, x: u64)
    requires
        a.height == Some(x),
        x < u64::MAX,
        b.height is None,
    ensures
        a.no_later_than(b),
        !b.no_later_than(a),
{
}

/// Of two plans with the same height, or both without one, the one with the lower
/// `spec_version` goes strictly before the other.
pub proof fn lower_spec_version_goes_first(a: PlanView, b: PlanView, x: u32, y: u32)
    requires
        a.height == b.height,
        a.spec_version == Some(x),
        b.spec_version == Some(y),
        x < y,
    ensures
        a.no_later_than(b),
        !b.no_later_than(a),
{
}

/// Of two plans with the same height, or both without one, one that waits for a
/// `spec_version` goes strictly before one that does not. The highest version there is counts
/// as none.
pub proof fn spec_version_goes_before_none(a: PlanView, b: PlanView, x: u32)
    requires
        a.height == b.height,
        a.spec_version == Some(x),
        x < u32::MAX,
        b.spec_version is None,
    ensures
        a.no_later_than(b),
        !b.no_later_than(a),
{
}

/// Of two plans with the same triggers, the one whose name comes first in the alphabet goes
/// first: the names are compared at the first character in which they differ.
pub proof fn earlier_name_goes_first(
    a: PlanView,
    b: PlanView,
    same: Seq<char>,
    x: char,
    y: char,
    a_rest: Seq<char>,
    b_rest: Seq<char>,
)
    requires
        a.height == b.height,
        a.spec_version == b.spec_version,
        a.name == same.push(x) + a_rest,
        b.name == same.push(y) + b_rest,
        x < y,
    ensures
        a.no_later_than(b),
        !b.no_later_than(a),
{
    crate::laws::text::first_difference_decides(same, x, y, a_rest, b_rest);
}

/// While plans wait only for runtimes, a chain that has reached several of them at once is
/// taken through them from the lowest to the highest: no plan is chosen as long as another
/// one is due that supports an older runtime.
pub proof fn oldest_runtime_is_next(
    plans: Seq<PlanView>,
    applied: Set<Seq<char>>,
    status: ChainStatus,
    i: int,
    j: int,
)
    requires
        is_next(plans, applied, status, i),
        0 <= j < plans.len(),
        plans[j].due(applied, status),
        plans[i].height == plans[j].height,
        plans[i].spec_version is Some,
        plans[j].spec_version is Some,
    ensures
        plans[i].spec_version->0 <= plans[j].spec_version->0,
{
    assert(plans[i].no_later_than(plans[j]));
}

/// No plan is chosen as long as another one is due that waits for a lower block.
pub proof fn lowest_block_is_next(
    plans: Seq<PlanView>,
    applied: Set<Seq<char>>,
    status: ChainStatus,
    i: int,
    j: int,
)
    requires
        is_next(plans, applied, status, i),
        0 <= j < plans.len(),
        plans[j].due(applied, status),
        plans[i].height is Some,
        plans[j].height is Some,
    ensures
        plans[i].height->0 <= plans[j].height->0,
{
    assert(plans[i].no_later_than(plans[j]));
}

/// The words for a trigger give its numbers back, and no two triggers have the same words:
/// a height, a version, both of them, or `immediate` for a height of zero alone.
pub proof fn trigger_words_give_the_trigger(plan: PlanView, h: u64, v: u32)
    ensures
        plan.height == Some(h) && plan.spec_version is None && h > 0 ==> (text::after(
            plan.trigger_text(),
            "height >= "@,
        ) matches Some(n) && text::natural(n) == Some(h as nat)),
        plan.height == Some(0u64) && plan.spec_version is None ==> plan.trigger_text()
            == "immediate"@,
        plan.height is None && plan.spec_version == Some(v) ==> (text::after(
            plan.trigger_text(),
            "spec_version >= "@,
        ) matches Some(n) && text::natural(n) == Some(v as nat)),
        plan.height == Some(h) && plan.spec_version == Some(v) ==> exists|a: Seq<char>, b: Seq<char>|
            #![trigger a + b]
            plan.trigger_text() == "height >= "@ + a + (" or spec_version >= "@ + b)
                && text::natural(a) == Some(h as nat) && text::natural(b) == Some(v as nat),
        plan.height is None && plan.spec_version is None ==> plan.trigger_text()
            == "never (invalid)"@,
{
    let a = text::decimal(h as nat);
    let b = text::decimal(v as nat);
    text::decimal_is_read_back(h as nat);
    text::decimal_is_read_back(v as nat);
    crate::laws::text::prefix_comes_off("height >= "@, a);
    crate::laws::text::prefix_comes_off("spec_version >= "@, b);
    if plan.height == Some(h) && plan.spec_version == Some(v) {
        let sum = a + b;
        assert(plan.trigger_text() =~= "height >= "@ + a + (" or spec_version >= "@ + b));
    }
}

} // verus!
