//! Pre-upgrade backup of the node's data directory (its `--base-path`).

use vstd::prelude::*;

use crate::path;
use crate::text;
use crate::time;

verus! {

/// Why no backup is made.
#[derive(Debug)]
pub enum BackupError {
    /// There is no data directory.
    NoData,
    /// The backup would lie at this place, inside the data directory.
    Inside(String),
}

/// `s` without the character `c`.
pub open spec fn without(s: Seq<char>, c: char) -> Seq<char> {
    s.filter(|x: char| x != c)
}

/// The name of a backup: the time at which it is made, without colons, and the upgrade.
pub open spec fn backup_name(upgrade: Seq<char>, now: nat) -> Seq<char> {
    "data-backup-"@ + without(time::rfc3339(now), ':') + "-"@ + upgrade
}

/// Where a backup goes.
pub open spec fn backup_place(root: Seq<char>, upgrade: Seq<char>, now: nat) -> Seq<char> {
    path::joined(root, backup_name(upgrade, now))
}

fn remove_char(s: &str, c: char) -> (r: String)
    ensures
        r@ == without(s@, c),
{
    let v = text::chars_of(s);
    let mut r = String::new();
    let mut i: usize = 0;
    proof {
        reveal(Seq::filter);
        assert(without(s@.take(0), c) =~= Seq::<char>::empty());
    }
    while i < v.len()
        invariant
            i <= v@.len(),
            v@ == s@,
            r@ == without(s@.take(i as int), c),
        decreases v@.len() - i,
    {
        proof {
            assert(s@.take(i + 1) =~= s@.take(i as int).push(v@[i as int]));
            without_push(s@.take(i as int), v@[i as int], c);
        }
        if v[i] != c {
            r.push(v[i]);
        }
        i = i + 1;
    }
    assert(s@.take(s@.len() as int) == s@);
    r
}

proof fn without_push(s: Seq<char>, x: char, c: char)
    ensures
        without(s.push(x), c) == if x != c {
            without(s, c).push(x)
        } else {
            without(s, c)
        },
{
    reveal(Seq::filter);
    assert(s.push(x).drop_last() =~= s);
}

/// `r` says where a backup goes, or why none is made.
pub open spec fn backup_result(
    data_dir: Seq<char>,
    data_is_dir: bool,
    place: Seq<char>,
    r: Result<String, BackupError>,
) -> bool {
    if !data_is_dir {
        r matches Err(BackupError::NoData)
    } else if path::within(place, data_dir) {
        r matches Err(BackupError::Inside(p)) && p@ == place
    } else {
        r matches Ok(p) && p@ == place
    }
}

/// Where to copy `data_dir` to before `upgrade` is applied, `now` seconds after the start
/// of 1970: `<backup_root>/data-backup-<timestamp>-<upgrade>`. `data_is_dir` says whether
/// there is a data directory. The node must be stopped.
pub fn backup_data_dir(
    data_dir: &str,
    data_is_dir: bool,
    backup_root: &str,
    upgrade: &str,
    now: u64,
) -> (r: Result<String, BackupError>)
    requires
        now < time::TIMESTAMP_END,
    ensures
        backup_result(
            data_dir@,
            data_is_dir,
            backup_place(backup_root@, upgrade@, now as nat),
            r,
        ),
{
    if !data_is_dir {
        return Err(BackupError::NoData);
    }
    let stamp = remove_char(time::timestamp(now).as_str(), ':');
    let mut name = "data-backup-".to_string();
    name.append(stamp.as_str());
    name.append("-");
    name.append(upgrade);
    let dest = path::join(backup_root, name.as_str());
    if path::starts_with(dest.as_str(), data_dir) {
        return Err(BackupError::Inside(dest));
    }
    Ok(dest)
}

/// What an entry of a directory is.
#[derive(Debug, Clone, Copy, PartialEq, Eq, Structural)]
pub enum EntryKind {
    Dir,
    Link,
    Other,
}

/// An entry of a directory.
#[derive(Debug)]
pub struct Entry {
    pub name: String,
    pub kind: EntryKind,
}

/// A step of copying a directory.
#[derive(Debug)]
pub enum CopyStep {
    /// Make the directory at this path, and those above it.
    Make(String),
    /// Copy the directory at the first path to the second.
    Dir(String, String),
    /// Make a link at the second path that holds what the link at the first holds.
    Link(String, String),
    /// Copy the file at the first path to the second.
    File(String, String),
    /// Give the directory at the second path the permissions of that at the first.
    Permissions(String, String),
}

/// A step of copying a directory.
pub enum CopyView {
    Make(Seq<char>),
    Dir(Seq<char>, Seq<char>),
    Link(Seq<char>, Seq<char>),
    File(Seq<char>, Seq<char>),
    Permissions(Seq<char>, Seq<char>),
}

impl View for CopyStep {
    type V = CopyView;

    open spec fn view(&self) -> CopyView {
        match *self {
            CopyStep::Make(p) => CopyView::Make(p@),
            CopyStep::Dir(a, b) => CopyView::Dir(a@, b@),
            CopyStep::Link(a, b) => CopyView::Link(a@, b@),
            CopyStep::File(a, b) => CopyView::File(a@, b@),
            CopyStep::Permissions(a, b) => CopyView::Permissions(a@, b@),
        }
    }
}

/// How an entry is copied: a directory with all that lies in it, a link as a link, and
/// anything else as a file.
pub open spec fn entry_step(entry: Entry, src: Seq<char>, dst: Seq<char>) -> CopyView {
    let from = path::joined(src, entry.name@);
    let to = path::joined(dst, entry.name@);
    match entry.kind {
        EntryKind::Dir => CopyView::Dir(from, to),
        EntryKind::Link => CopyView::Link(from, to),
        EntryKind::Other => CopyView::File(from, to),
    }
}

/// How a directory is copied. Its permissions come last: a read-only directory must not
/// block the copies into it.
pub open spec fn copy_steps(entries: Seq<Entry>, src: Seq<char>, dst: Seq<char>) -> Seq<CopyView> {
    seq![CopyView::Make(dst)] + entries.map_values(|e: Entry| entry_step(e, src, dst)) + seq![
        CopyView::Permissions(src, dst),
    ]
}

/// The views of a list of steps.
pub open spec fn step_views(steps: Seq<CopyStep>) -> Seq<CopyView> {
    steps.map_values(|s: CopyStep| s@)
}

/// How the directory `src` with these entries is copied to `dst`.
pub fn copy_dir(entries: &Vec<Entry>, src: &str, dst: &str) -> (r: Vec<CopyStep>)
    ensures
        step_views(r@) == copy_steps(entries@, src@, dst@),
{
    let mut r: Vec<CopyStep> = Vec::new();
    r.push(CopyStep::Make(dst.to_string()));
    let ghost steps = entries@.map_values(|e: Entry| entry_step(e, src@, dst@));
    assert(step_views(r@) =~= seq![CopyView::Make(dst@)] + steps.take(0));
    let mut i: usize = 0;
    while i < entries.len()
        invariant
            i <= entries@.len(),
            steps == entries@.map_values(|e: Entry| entry_step(e, src@, dst@)),
            step_views(r@) == seq![CopyView::Make(dst@)] + steps.take(i as int),
        decreases entries@.len() - i,
    {
        let ghost before = step_views(r@);
        let from = path::join(src, entries[i].name.as_str());
        let to = path::join(dst, entries[i].name.as_str());
        let step = match entries[i].kind {
            EntryKind::Dir => CopyStep::Dir(from, to),
            EntryKind::Link => CopyStep::Link(from, to),
            EntryKind::Other => CopyStep::File(from, to),
        };
        r.push(step);
        assert(step_views(r@) =~= before.push(steps[i as int]));
        assert(steps.take(i + 1) =~= steps.take(i as int).push(steps[i as int]));
        i = i + 1;
    }
    let ghost before = step_views(r@);
    r.push(CopyStep::Permissions(src.to_string(), dst.to_string()));
    assert(steps.take(steps.len() as int) == steps);
    assert(step_views(r@) =~= before.push(CopyView::Permissions(src@, dst@)));
    r
}

/// A backup never lies inside the directory that it is a copy of.
pub proof fn backup_is_outside(
    data_dir: Seq<char>,
    data_is_dir: bool,
    place: Seq<char>,
    r: Result<String, BackupError>,
)
    requires
        backup_result(data_dir, data_is_dir, place, r),
    ensures
        r matches Ok(p) ==> !path::within(p@, data_dir),
{
}

/// Every entry is copied once, into the copy and under its own name, after the copy was
/// made and before it gets its permissions.
pub proof fn entries_are_copied_in_between(
    entries: Seq<Entry>,
    src: Seq<char>,
    dst: Seq<char>,
)
    ensures
        ({
            let steps = copy_steps(entries, src, dst);
            &&& steps.len() == entries.len() + 2
            &&& steps.first() == CopyView::Make(dst)
            &&& steps.last() == CopyView::Permissions(src, dst)
            &&& forall|i: int|
                0 <= i < entries.len() ==> #[trigger] steps[i + 1] == entry_step(
                    entries[i],
                    src,
                    dst,
                )
        }),
{
}

} // verus!
