//! Where files lie, what is recorded, and what a backup is.

use vstd::prelude::*;

use crate::backup::{
    backup_name, backup_place, backup_result, entry_step, without, BackupError, CopyView, Entry,
    EntryKind,
};
use crate::layout::{link_target, scratch_name, verdict, LayoutView, Verdict};
use crate::path;
use crate::plan::{valid_name, ChainStatus, PlanView};
use crate::state::StateView;
use crate::time;

verus! {

/// A path that is taken from a directory lies in it, behind a slash; one that starts at the
/// root stands for itself.
pub proof fn paths_are_joined_by_a_slash(base: Seq<char>, rel: Seq<char>)
    ensures
        rel.len() > 0 && rel[0] == '/' ==> path::joined(base, rel) == rel,
        !(rel.len() > 0 && rel[0] == '/') && base.len() > 0 && base[base.len() - 1] != '/'
            ==> path::joined(base, rel) == base + "/"@ + rel,
        !(rel.len() > 0 && rel[0] == '/') && base.len() > 0 && base[base.len() - 1] == '/'
            ==> path::joined(base, rel) == base + rel,
{
    reveal_strlit("/");
    assert(base + "/"@ =~= base.push('/'));
}

proof fn plain_join(base: Seq<char>, rel: Seq<char>)
    requires
        base.len() > 0,
        base[base.len() - 1] != '/',
        rel.len() > 0,
        rel[0] != '/',
    ensures
        path::joined(base, rel) == base + "/"@ + rel,
{
    paths_are_joined_by_a_slash(base, rel);
}

/// Every file of an installation lies where it is looked for, whatever the home, the name of
/// the node and the name of the upgrade are.
pub proof fn files_lie_in_their_places(home: Seq<char>, daemon: Seq<char>, name: Seq<char>)
    requires
        home.len() > 0,
        home[home.len() - 1] != '/',
        daemon.len() > 0,
        daemon[0] != '/',
        valid_name(name),
    ensures
        ({
            let layout = LayoutView::of(home, daemon);
            let root = home + "/"@ + "midnight-node-updater"@;
            &&& layout.root == root
            &&& layout.current_link() == root + "/"@ + "current"@
            &&& layout.state_file() == root + "/"@ + "state.json"@
            &&& layout.genesis_dir() == root + "/"@ + "genesis"@
            &&& layout.bin_path(layout.genesis_dir()) == root + "/"@ + "genesis"@ + "/"@ + "bin"@
                + "/"@ + daemon
            &&& layout.upgrades_dir() == root + "/"@ + "upgrades"@
            &&& layout.upgrade_dir(name) == root + "/"@ + "upgrades"@ + "/"@ + name
            &&& layout.plan_file(name) == root + "/"@ + "upgrades"@ + "/"@ + name + "/"@
                + "upgrade-info.json"@
            &&& layout.upgrade_bin(name) == root + "/"@ + "upgrades"@ + "/"@ + name + "/"@ + "bin"@
                + "/"@ + daemon
        }),
{
    let layout = LayoutView::of(home, daemon);
    reveal_strlit("midnight-node-updater");
    reveal_strlit("current");
    reveal_strlit("state.json");
    reveal_strlit("genesis");
    reveal_strlit("upgrades");
    reveal_strlit("upgrade-info.json");
    reveal_strlit("bin");
    assert(crate::plan::name_char(name[0]));
    assert(crate::plan::name_char(name[name.len() - 1]));
    plain_join(home, "midnight-node-updater"@);
    plain_join(layout.root, "current"@);
    plain_join(layout.root, "state.json"@);
    plain_join(layout.root, "genesis"@);
    plain_join(layout.root, "upgrades"@);
    plain_join(layout.genesis_dir(), "bin"@);
    plain_join(path::joined(layout.genesis_dir(), "bin"@), daemon);
    plain_join(layout.upgrades_dir(), name);
    plain_join(layout.upgrade_dir(name), "upgrade-info.json"@);
    plain_join(layout.upgrade_dir(name), "bin"@);
    plain_join(path::joined(layout.upgrade_dir(name), "bin"@), daemon);
}

/// `current` holds a path that starts at the installation, so that the installation can be
/// moved; a link that an operator made to some other place leads there.
pub proof fn current_leads_where_it_points(
    layout: LayoutView,
    name: Seq<char>,
    target: Seq<char>,
)
    requires
        valid_name(name),
    ensures
        link_target(None) == "genesis"@,
        link_target(Some(name)) == "upgrades"@ + "/"@ + name,
        target.len() > 0 && target[0] == '/' ==> layout.current_dir(Some(target)) == target,
        layout.current_dir(None) == layout.genesis_dir(),
{
    reveal_strlit("upgrades");
    assert(crate::plan::name_char(name[0]));
    plain_join("upgrades"@, name);
}

/// What is written beside its place is written under another name, and a hidden one.
pub proof fn scratch_files_are_hidden(name: Seq<char>)
    ensures
        scratch_name(name) != name,
        scratch_name(name)[0] == '.',
        name.is_prefix_of(scratch_name(name).drop_first()),
{
    reveal_strlit(".tmp");
    assert(scratch_name(name).len() == name.len() + 5);
    assert(scratch_name(name).drop_first().subrange(0, name.len() as int) =~= name);
}

/// A plan file counts exactly if the plan is accepted and lies in the directory of its name.
pub proof fn plans_lie_under_their_names(dir_name: Seq<char>, plan: PlanView)
    ensures
        verdict(dir_name, plan) == Verdict::Kept <==> plan.fault() is None && plan.name == dir_name,
        plan.fault() matches Some(e) ==> verdict(dir_name, plan) == Verdict::Invalid(e),
{
}

/// Something lies in a directory exactly if it is called below it: a directory whose name only
/// starts like another's is not inside that one.
pub proof fn neighbours_are_not_inside(base: Seq<char>, a: Seq<char>, b: Seq<char>)
    requires
        !a.contains('/'),
        !b.contains('/'),
        a.len() > 0,
        b.len() > 0,
        a != seq!['.'],
        b != seq!['.'],
    ensures
        path::within(path::joined(base, a), base),
        path::within(path::joined(base, a), path::joined(base, b)) <==> a == b,
        !path::within(base, path::joined(base, a)),
{
    path::join_adds_one_component(base, a);
    path::join_adds_one_component(base, b);
    let parts = path::components(base);
    assert(parts.push(a).subrange(0, parts.len() as int) =~= parts);
    if a == b {
        assert(parts.push(a).subrange(0, parts.len() as int + 1) =~= parts.push(b));
    } else if path::within(path::joined(base, a), path::joined(base, b)) {
        assert(parts.push(a).subrange(0, parts.len() as int + 1)[parts.len() as int] == a);
        assert(parts.push(b)[parts.len() as int] == b);
    }
}

/// The name of a path is what was joined to it last.
pub proof fn last_name_is_what_was_joined(base: Seq<char>, name: Seq<char>)
    requires
        valid_name(name),
    ensures
        path::last_name(path::joined(base, name)) == Some(name),
{
    crate::plan::valid_name_stays_in_directory(base, name);
    let parts = path::components(path::joined(base, name));
    assert(parts.last() == name);
    assert(crate::plan::name_char(name[0]));
    assert(name != seq!['/']) by {
        if name == seq!['/'] {
            assert(name[0] == '/');
        }
    }
}

proof fn left_over_was_there(s: Seq<char>, c: char)
    ensures
        !without(s, c).contains(c),
        forall|x: char| #[trigger] without(s, c).contains(x) ==> s.contains(x),
    decreases s.len(),
{
    reveal(Seq::filter);
    if s.len() > 0 {
        let front = s.drop_last();
        let before = without(front, c);
        let after = without(s, c);
        left_over_was_there(front, c);
        assert(after == if s.last() != c {
            before.push(s.last())
        } else {
            before
        });
        assert forall|x: char| #[trigger] after.contains(x) implies s.contains(x) && x != c by {
            let i = choose|i: int| 0 <= i < after.len() && after[i] == x;
            if i < before.len() {
                assert(before[i] == x);
                assert(before.contains(x));
                let k = choose|k: int| 0 <= k < front.len() && front[k] == x;
                assert(s[k] == x);
            } else {
                assert(s[s.len() - 1] == x);
            }
        }
    }
}

/// A backup is called by the time at which it is made and the upgrade it is made for. Its name
/// holds no colon, which not every file system takes.
pub proof fn backups_are_called_by_time_and_upgrade(upgrade: Seq<char>, other: Seq<char>, now: nat)
    requires
        valid_name(upgrade),
    ensures
        "data-backup-"@.is_prefix_of(backup_name(upgrade, now)),
        ("-"@ + upgrade).is_suffix_of(backup_name(upgrade, now)),
        !backup_name(upgrade, now).contains(':'),
        backup_name(upgrade, now) == backup_name(other, now) ==> upgrade == other,
{
    let name = backup_name(upgrade, now);
    let stamp = without(time::rfc3339(now), ':');
    let front = "data-backup-"@;
    let head = front + stamp + "-"@;
    reveal_strlit("data-backup-");
    reveal_strlit("-");
    left_over_was_there(time::rfc3339(now), ':');
    assert(name.subrange(0, front.len() as int) =~= front);
    let tail = "-"@ + upgrade;
    assert(name.subrange(name.len() - tail.len(), name.len() as int) =~= tail);
    if name.contains(':') {
        let i = choose|i: int| 0 <= i < name.len() && name[i] == ':';
        if front.len() <= i < front.len() + stamp.len() {
            assert(stamp[i - front.len()] == ':');
        } else if i >= head.len() {
            assert(upgrade[i - head.len()] == ':');
            assert(crate::plan::name_char(upgrade[i - head.len()]));
        }
    }
    if name == backup_name(other, now) {
        assert(name.subrange(head.len() as int, name.len() as int) =~= upgrade);
        assert(backup_name(other, now).subrange(head.len() as int, name.len() as int) =~= other);
    }
}

/// A backup of an upgrade goes into the backup directory, one level below it.
pub proof fn backups_go_into_the_backup_directory(root: Seq<char>, upgrade: Seq<char>, now: nat)
    requires
        valid_name(upgrade),
    ensures
        path::components(backup_place(root, upgrade, now)) == path::components(root).push(
            backup_name(upgrade, now),
        ),
{
    let name = backup_name(upgrade, now);
    reveal_strlit("data-backup-");
    reveal_strlit("-");
    assert(name[0] == 'd');
    assert(name.len() >= 12);
    let stamp = without(time::rfc3339(now), ':');
    let head = "data-backup-"@ + stamp + "-"@;
    assert(!name.contains('/')) by {
        if name.contains('/') {
            let i = choose|i: int| 0 <= i < name.len() && name[i] == '/';
            if 12 <= i < 12 + stamp.len() {
                assert(stamp[i - 12] == '/');
                stamp_has_no_slash(now);
                assert(stamp.contains('/'));
                left_over_was_there(time::rfc3339(now), ':');
            } else if i >= head.len() {
                assert(upgrade[i - head.len()] == '/');
                assert(crate::plan::name_char(upgrade[i - head.len()]));
            }
        }
    }
    path::join_adds_one_component(root, name);
}

proof fn neither_holds(a: Seq<char>, b: Seq<char>)
    requires
        !a.contains('/'),
        !b.contains('/'),
    ensures
        !(a + b).contains('/'),
{
    let s = a + b;
    if s.contains('/') {
        let i = choose|i: int| 0 <= i < s.len() && s[i] == '/';
        if i < a.len() {
            assert(a[i] == '/');
        } else {
            assert(b[i - a.len()] == '/');
        }
    }
}

proof fn digits_hold_no_slash(n: nat)
    ensures
        !time::two_digits(n).contains('/'),
{
    let s = time::two_digits(n);
    assert(s[0] == crate::text::digit(n / 10 % 10));
    assert(s[1] == crate::text::digit(n % 10));
}

proof fn stamp_has_no_slash(now: nat)
    ensures
        !time::rfc3339(now).contains('/'),
{
    let date = time::date_of(now / 86400);
    let rest = now % 86400;
    let y = time::two_digits(date.0 / 100);
    let z = time::two_digits(date.0 % 100);
    let m = time::two_digits(date.1);
    let d = time::two_digits(date.2);
    let h = time::two_digits(rest / 3600);
    let n = time::two_digits(rest / 60 % 60);
    let t = time::two_digits(rest % 60);
    digits_hold_no_slash(date.0 / 100);
    digits_hold_no_slash(date.0 % 100);
    digits_hold_no_slash(date.1);
    digits_hold_no_slash(date.2);
    digits_hold_no_slash(rest / 3600);
    digits_hold_no_slash(rest / 60 % 60);
    digits_hold_no_slash(rest % 60);
    assert(!seq!['-'].contains('/') && !seq!['T'].contains('/') && !seq![':'].contains('/')
        && !seq!['Z'].contains('/'));
    let s = y + z;
    neither_holds(y, z);
    neither_holds(s, seq!['-']);
    let s = s + seq!['-'];
    neither_holds(s, m);
    let s = s + m;
    neither_holds(s, seq!['-']);
    let s = s + seq!['-'];
    neither_holds(s, d);
    let s = s + d;
    neither_holds(s, seq!['T']);
    let s = s + seq!['T'];
    neither_holds(s, h);
    let s = s + h;
    neither_holds(s, seq![':']);
    let s = s + seq![':'];
    neither_holds(s, n);
    let s = s + n;
    neither_holds(s, seq![':']);
    let s = s + seq![':'];
    neither_holds(s, t);
    let s = s + t;
    neither_holds(s, seq!['Z']);
}

/// A backup is made exactly if there is data, and its place is not inside that data.
pub proof fn backups_need_data_and_another_place(
    data_dir: Seq<char>,
    data_is_dir: bool,
    place: Seq<char>,
    r: Result<String, BackupError>,
)
    requires
        backup_result(data_dir, data_is_dir, place, r),
    ensures
        r is Ok <==> data_is_dir && !path::within(place, data_dir),
        r matches Ok(p) ==> p@ == place,
        r matches Err(BackupError::NoData) <==> !data_is_dir,
        r matches Err(BackupError::Inside(p)) ==> p@ == place && path::within(place, data_dir),
{
}

/// Each entry of a directory is copied under its own name: a directory as a directory, a link
/// as a link, whatever it leads to, and anything else as a file.
pub proof fn entries_are_copied_as_what_they_are(entry: Entry, src: Seq<char>, dst: Seq<char>)
    ensures
        ({
            let from = path::joined(src, entry.name@);
            let to = path::joined(dst, entry.name@);
            &&& entry.kind == EntryKind::Dir ==> entry_step(entry, src, dst) == CopyView::Dir(
                from,
                to,
            )
            &&& entry.kind == EntryKind::Link ==> entry_step(entry, src, dst) == CopyView::Link(
                from,
                to,
            )
            &&& entry.kind == EntryKind::Other ==> entry_step(entry, src, dst) == CopyView::File(
                from,
                to,
            )
        }),
{
}

/// An upgrade is recorded behind those that were applied before it, with its name, the time
/// and the status that was seen; nothing else changes.
pub proof fn applied_upgrades_are_recorded_in_order(
    state: StateView,
    name: Seq<char>,
    observed: Option<ChainStatus>,
    now: nat,
)
    ensures
        ({
            let after = state.with_applied(name, observed, now);
            &&& after.applied.len() == state.applied.len() + 1
            &&& after.applied.drop_last() == state.applied
            &&& after.applied.last().name == name
            &&& after.applied.last().observed == observed
            &&& after.applied.last().applied_at == time::rfc3339(now)
            &&& after.last_observed == state.last_observed
            &&& after.names().last() == name
            &&& after.names().contains(name)
        }),
{
    let after = state.with_applied(name, observed, now);
    assert(after.applied.drop_last() =~= state.applied);
    assert(after.names()[after.names().len() - 1] == name);
}

/// Only what was seen last is kept, with the time at which it was seen; what was applied stays
/// recorded.
pub proof fn last_status_is_kept(state: StateView, status: ChainStatus, now: nat)
    ensures
        state.with_observed(status, now).applied == state.applied,
        state.with_observed(status, now).last_observed matches Some(o) && o.status == status
            && o.observed_at == time::rfc3339(now),
        StateView::initial().names().len() == 0,
        StateView::initial().last_observed is None,
{
}

/// What lies in a directory lies in that directory, however the path is written.
pub proof fn parents_are_what_was_joined_to(base: Seq<char>, name: Seq<char>)
    requires
        valid_name(name),
    ensures
        path::parent_of(path::joined(base, name)) matches Some(dir) && path::components(dir)
            == path::components(base),
{
    crate::plan::valid_name_stays_in_directory(base, name);
    let whole = path::joined(base, name);
    path::parent_drops_last_component(whole);
    assert(path::components(base).push(name).drop_last() =~= path::components(base));
    assert(path::components(whole).last() == name);
    assert(crate::plan::name_char(name[0]));
    assert(name != seq!['/']) by {
        if name == seq!['/'] {
            assert(name[0] == '/');
        }
    }
}

} // verus!
