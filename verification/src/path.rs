//! Unix paths, held as text.

use vstd::prelude::*;

use crate::text;

verus! {

/// A path that starts at the root.
pub open spec fn absolute(path: Seq<char>) -> bool {
    path.len() > 0 && path[0] == '/'
}

/// `rel` taken from the directory `base`. An absolute `rel` stands for itself.
pub open spec fn joined(base: Seq<char>, rel: Seq<char>) -> Seq<char> {
    if absolute(rel) {
        rel
    } else if base.len() == 0 || base.last() == '/' {
        base + rel
    } else {
        base.push('/') + rel
    }
}

/// A piece between slashes that names something: neither nothing nor `.`.
pub open spec fn names_something(piece: Seq<char>) -> bool {
    piece.len() > 0 && piece != seq!['.']
}

/// What a path starts from: the root, a leading `.`, or nothing in particular.
pub open spec fn origin(path: Seq<char>) -> Seq<Seq<char>> {
    if absolute(path) {
        seq![seq!['/']]
    } else if text::pieces(path, '/')[0] == seq!['.'] {
        seq![seq!['.']]
    } else {
        Seq::empty()
    }
}

/// The components of a path. Repeated and trailing slashes count for nothing, and
/// neither does a `.` that is not at the front.
pub open spec fn components(path: Seq<char>) -> Seq<Seq<char>> {
    origin(path) + text::pieces(path, '/').filter(|p: Seq<char>| names_something(p))
}

/// Whether `path` is `base` or lies below it, component by component.
pub open spec fn within(path: Seq<char>, base: Seq<char>) -> bool {
    components(base).is_prefix_of(components(path))
}

/// The last component, where it is the name of a file or a directory.
pub open spec fn last_name(path: Seq<char>) -> Option<Seq<char>> {
    let parts = components(path);
    if parts.len() == 0 || parts.last() == seq!['/'] || parts.last() == seq!['.'] || parts.last()
        == seq!['.', '.'] {
        None
    } else {
        Some(parts.last())
    }
}

/// The path with these components.
pub open spec fn rebuilt(parts: Seq<Seq<char>>) -> Seq<char>
    decreases parts.len(),
{
    if parts.len() == 0 {
        Seq::empty()
    } else {
        joined(rebuilt(parts.drop_last()), parts.last())
    }
}

/// The directory that a path lies in; neither the root nor the empty path has one.
pub open spec fn parent_of(path: Seq<char>) -> Option<Seq<char>> {
    let parts = components(path);
    if parts.len() == 0 || parts.last() == seq!['/'] {
        None
    } else {
        Some(rebuilt(parts.drop_last()))
    }
}

/// Whether `path` starts at the root.
pub fn is_absolute(path: &str) -> (r: bool)
    ensures
        r == absolute(path@),
{
    let v = text::chars_of(path);
    v.len() > 0 && v[0] == '/'
}

/// `rel` taken from the directory `base`.
pub fn join(base: &str, rel: &str) -> (r: String)
    ensures
        r@ == joined(base@, rel@),
{
    if is_absolute(rel) {
        return rel.to_string();
    }
    let v = text::chars_of(base);
    let mut r = base.to_string();
    if v.len() > 0 && v[v.len() - 1] != '/' {
        r.push('/');
    }
    r.append(rel);
    r
}

/// A text of one character.
fn single(c: char) -> (r: String)
    ensures
        r@ == seq![c],
{
    let mut r = String::new();
    r.push(c);
    assert(r@ =~= seq![c]);
    r
}

fn is_single(s: &String, c: char) -> (r: bool)
    ensures
        r == (s@ == seq![c]),
{
    let v = text::chars_of(s.as_str());
    if v.len() == 1 && v[0] == c {
        assert(s@ =~= seq![c]);
        true
    } else {
        false
    }
}

/// The components of `path`.
pub fn split(path: &str) -> (r: Vec<String>)
    ensures
        text::texts(r@) == components(path@),
{
    let parts = text::split(path, '/');
    let ghost all = text::texts(parts@);
    let ghost keep = |p: Seq<char>| names_something(p);
    proof {
        text::pieces_not_empty(path@, '/');
        assert(all.len() == parts@.len());
        assert(all[0] == parts@[0]@);
    }
    let mut r: Vec<String> = Vec::new();
    if is_absolute(path) {
        r.push(single('/'));
        assert(text::texts(r@) =~= origin(path@));
    } else if is_single(&parts[0], '.') {
        r.push(single('.'));
        assert(text::texts(r@) =~= origin(path@));
    } else {
        assert(text::texts(r@) =~= origin(path@));
    }
    let mut i: usize = 0;
    assert(all.take(0).filter(keep) =~= Seq::<Seq<char>>::empty()) by {
        reveal(Seq::filter);
    }
    while i < parts.len()
        invariant
            i <= parts@.len(),
            all == text::texts(parts@),
            keep == (|p: Seq<char>| names_something(p)),
            text::texts(r@) == origin(path@) + all.take(i as int).filter(keep),
        decreases parts@.len() - i,
    {
        let ghost before = text::texts(r@);
        proof {
            reveal(Seq::filter);
            assert(all.take(i + 1).drop_last() == all.take(i as int));
            assert(all.take(i + 1).last() == parts@[i as int]@);
        }
        if !parts[i].as_str().is_empty() && !is_single(&parts[i], '.') {
            r.push(parts[i].clone());
            assert(text::texts(r@) =~= before.push(parts@[i as int]@));
            assert(text::texts(r@) =~= origin(path@) + all.take(i + 1).filter(keep));
        }
        i = i + 1;
    }
    assert(all.take(all.len() as int) == all);
    r
}

/// Whether `path` is `base` or lies below it, component by component.
pub fn starts_with(path: &str, base: &str) -> (r: bool)
    ensures
        r == within(path@, base@),
{
    let p = split(path);
    let b = split(base);
    let ghost ps = text::texts(p@);
    let ghost bs = text::texts(b@);
    if b.len() > p.len() {
        return false;
    }
    let mut i: usize = 0;
    while i < b.len()
        invariant
            i <= b@.len() <= p@.len(),
            ps == text::texts(p@),
            bs == text::texts(b@),
            ps == components(path@),
            bs == components(base@),
            forall|j: int| 0 <= j < i ==> ps[j] == bs[j],
        decreases b@.len() - i,
    {
        if !text::same(p[i].as_str(), b[i].as_str()) {
            assert(ps[i as int] != bs[i as int]);
            assert(ps.subrange(0, bs.len() as int)[i as int] == ps[i as int]);
            return false;
        }
        assert(ps[i as int] == bs[i as int]);
        i = i + 1;
    }
    assert(bs =~= ps.subrange(0, bs.len() as int));
    true
}

/// The last component of `path`, where it is the name of a file or a directory.
pub fn file_name(path: &str) -> (r: Option<String>)
    ensures
        match r {
            Some(name) => last_name(path@) == Some(name@),
            None => last_name(path@) is None,
        },
{
    let parts = split(path);
    if parts.len() == 0 {
        return None;
    }
    let last = &parts[parts.len() - 1];
    assert(components(path@).last() == last@);
    if is_single(last, '/') || is_single(last, '.') {
        return None;
    }
    let v = text::chars_of(last.as_str());
    if v.len() == 2 && v[0] == '.' && v[1] == '.' {
        assert(last@ =~= seq!['.', '.']);
        return None;
    }
    Some(last.clone())
}

/// The directory that `path` lies in, in its shortest form.
pub fn parent(path: &str) -> (r: Option<String>)
    ensures
        match r {
            Some(dir) => parent_of(path@) == Some(dir@),
            None => parent_of(path@) is None,
        },
{
    let parts = split(path);
    let n: usize = parts.len();
    let ghost all = components(path@);
    if n == 0 {
        return None;
    }
    assert(all.last() == parts@[n - 1]@);
    if is_single(&parts[n - 1], '/') {
        return None;
    }
    let mut dir = String::new();
    let mut i: usize = 0;
    assert(dir@ =~= rebuilt(all.take(0)));
    while i < n - 1
        invariant
            i <= n - 1,
            n == parts@.len(),
            all == text::texts(parts@),
            dir@ == rebuilt(all.take(i as int)),
        decreases n - i,
    {
        proof {
            assert(all.take(i + 1).drop_last() == all.take(i as int));
            assert(all.take(i + 1).last() == parts@[i as int]@);
        }
        dir = join(dir.as_str(), parts[i].as_str());
        i = i + 1;
    }
    assert(all.take(n - 1) == all.drop_last());
    Some(dir)
}

proof fn pieces_append(s: Seq<char>, t: Seq<char>)
    requires
        !t.contains('/'),
    ensures
        text::pieces(s.push('/') + t, '/') == text::pieces(s, '/').push(t),
{
    text::pieces_of_both(s, t, '/');
    text::one_piece(t, '/');
    assert(text::pieces(s, '/') + seq![t] == text::pieces(s, '/').push(t));
}

proof fn no_components()
    ensures
        components(Seq::empty()) == Seq::<Seq<char>>::empty(),
{
    let keep = |p: Seq<char>| names_something(p);
    let none = Seq::<char>::empty();
    reveal(Seq::filter);
    assert(text::pieces(none, '/') =~= seq![none]);
    assert(seq![none].drop_last() =~= Seq::<Seq<char>>::empty());
    assert(Seq::<Seq<char>>::empty().filter(keep) =~= Seq::<Seq<char>>::empty());
    assert(seq![none].filter(keep) =~= Seq::<Seq<char>>::empty());
    assert(components(none) =~= Seq::<Seq<char>>::empty());
}

proof fn single_component(part: Seq<char>)
    requires
        !part.contains('/') && names_something(part) || part == seq!['/'] || part == seq!['.'],
    ensures
        components(part) == seq![part],
{
    let keep = |p: Seq<char>| names_something(p);
    let none = Seq::<char>::empty();
    let all = text::pieces(part, '/');
    reveal(Seq::filter);
    assert(Seq::<Seq<char>>::empty().filter(keep) =~= Seq::<Seq<char>>::empty());
    if part == seq!['/'] {
        assert(part.drop_last() =~= none);
        assert(text::pieces(none, '/') =~= seq![none]);
        assert(all =~= seq![none].push(none));
        assert(all.drop_last() =~= seq![none]);
        assert(seq![none].drop_last() =~= Seq::<Seq<char>>::empty());
        assert(seq![none].filter(keep) =~= Seq::<Seq<char>>::empty());
        assert(all.filter(keep) =~= Seq::<Seq<char>>::empty());
        assert(components(part) =~= seq![part]);
    } else {
        assert(!part.contains('/'));
        text::one_piece(part, '/');
        assert(all.drop_last() =~= Seq::<Seq<char>>::empty());
        assert(all[0] == part);
        assert(!absolute(part)) by {
            if absolute(part) {
                assert(part.contains(part[0]));
            }
        }
        assert(components(part) =~= seq![part]);
    }
}

/// Joining a plain name to a directory adds exactly one component, the name: it
/// can neither leave the directory nor reach deeper than one level.
pub proof fn join_adds_one_component(base: Seq<char>, name: Seq<char>)
    requires
        !name.contains('/'),
        names_something(name),
    ensures
        components(joined(base, name)) == components(base).push(name),
{
    if base.len() == 0 {
        assert(base == Seq::<char>::empty());
        no_components();
        single_component(name);
        assert(!absolute(name)) by {
            if absolute(name) {
                assert(name.contains(name[0]));
            }
        }
        assert(joined(base, name) == name);
        assert(seq![name] == Seq::<Seq<char>>::empty().push(name));
    } else {
        join_to_nonempty(base, name);
    }
}

proof fn join_to_nonempty(base: Seq<char>, name: Seq<char>)
    requires
        base.len() > 0,
        !name.contains('/'),
        names_something(name),
    ensures
        components(joined(base, name)) == components(base).push(name),
{
    let keep = |p: Seq<char>| names_something(p);
    let old_pieces = text::pieces(base, '/');
    let path = joined(base, name);
    let new_pieces = text::pieces(path, '/');
    text::pieces_not_empty(base, '/');
    assert(!absolute(name)) by {
        if absolute(name) {
            assert(name.contains(name[0]));
        }
    }
    assert(path[0] == base[0]);
    if base.last() == '/' {
        let dir = base.drop_last();
        assert(dir.push('/') == base);
        assert(path == dir.push('/') + name);
        pieces_append(dir, name);
        let front = text::pieces(dir, '/');
        text::pieces_not_empty(dir, '/');
        assert(old_pieces == front.push(Seq::<char>::empty()));
        assert(new_pieces == front.push(name));
        front.lemma_filter_push(Seq::<char>::empty(), keep);
        front.lemma_filter_push(name, keep);
        assert(new_pieces[0] == old_pieces[0]);
        assert(new_pieces.filter(keep) == old_pieces.filter(keep).push(name));
    } else {
        pieces_append(base, name);
        assert(new_pieces == old_pieces.push(name));
        old_pieces.lemma_filter_push(name, keep);
        assert(new_pieces[0] == old_pieces[0]);
        assert(new_pieces.filter(keep) == old_pieces.filter(keep).push(name));
    }
    assert(origin(path) == origin(base));
    assert(components(path) =~= components(base).push(name));
}

/// The components that a path can have: names without slashes, behind what a path
/// starts from.
spec fn proper(parts: Seq<Seq<char>>) -> bool {
    forall|i: int| #![trigger parts[i]]
        0 <= i < parts.len() ==> (!parts[i].contains('/') && names_something(parts[i])) || (i == 0
            && (parts[i] == seq!['/'] || parts[i] == seq!['.']))
}

proof fn components_are_proper(path: Seq<char>)
    ensures
        proper(components(path)),
{
    let all = text::pieces(path, '/');
    let keep = |p: Seq<char>| names_something(p);
    let named = all.filter(keep);
    let parts = components(path);
    assert forall|i: int| #![trigger named[i]] 0 <= i < named.len() implies !named[i].contains('/')
        && names_something(named[i]) by {
        all.lemma_filter_pred(keep, i);
        assert(named.contains(named[i]));
        all.lemma_filter_contains_rev(keep, named[i]);
        let k = choose|k: int| 0 <= k < all.len() && all[k] == named[i];
        text::pieces_hold_no_separator(path, '/', k);
    }
    assert forall|i: int| #![trigger parts[i]] 0 <= i < parts.len() implies (!parts[i].contains('/')
        && names_something(parts[i])) || (i == 0 && (parts[i] == seq!['/'] || parts[i] == seq![
        '.',
    ])) by {
        let skip = origin(path).len();
        if i >= skip {
            assert(parts[i] == named[i - skip]);
        }
    }
}

proof fn rebuilt_has_components(parts: Seq<Seq<char>>)
    requires
        proper(parts),
    ensures
        components(rebuilt(parts)) == parts,
        parts.len() > 0 ==> rebuilt(parts).len() > 0,
    decreases parts.len(),
{
    if parts.len() == 0 {
        no_components();
        assert(parts == Seq::<Seq<char>>::empty());
    } else {
        let front = parts.drop_last();
        let last = parts.last();
        assert(last == parts[parts.len() - 1]);
        assert(proper(front)) by {
            assert forall|i: int| #![trigger front[i]] 0 <= i < front.len() implies (
            !front[i].contains('/') && names_something(front[i])) || (i == 0 && (front[i] == seq![
                '/',
            ] || front[i] == seq!['.'])) by {
                assert(front[i] == parts[i]);
            }
        }
        rebuilt_has_components(front);
        if front.len() == 0 {
            assert(rebuilt(front) == Seq::<char>::empty());
            assert(rebuilt(parts) =~= last);
            single_component(last);
            assert(parts =~= seq![last]);
        } else {
            join_adds_one_component(rebuilt(front), last);
            assert(front.push(last) == parts);
        }
    }
}

/// The name that a path ends in holds no slash.
pub proof fn last_name_is_plain(path: Seq<char>)
    ensures
        last_name(path) matches Some(name) ==> !name.contains('/') && names_something(name),
{
    let parts = components(path);
    components_are_proper(path);
    if parts.len() > 0 {
        assert(parts.last() == parts[parts.len() - 1]);
    }
}

/// The directory that a path lies in has all components of the path but the last.
pub proof fn parent_drops_last_component(path: Seq<char>)
    ensures
        parent_of(path) matches Some(dir) ==> components(dir) == components(path).drop_last(),
{
    let parts = components(path);
    components_are_proper(path);
    if parts.len() > 0 {
        let front = parts.drop_last();
        assert(proper(front)) by {
            assert forall|i: int| #![trigger front[i]] 0 <= i < front.len() implies (
            !front[i].contains('/') && names_something(front[i])) || (i == 0 && (front[i] == seq![
                '/',
            ] || front[i] == seq!['.'])) by {
                assert(front[i] == parts[i]);
            }
        }
        rebuilt_has_components(front);
    }
}

} // verus!
