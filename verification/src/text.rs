//! Text as a sequence of characters: the small vocabulary that the rest of the
//! crate states its contracts in, with an executable counterpart for each word.

use vstd::prelude::*;

verus! {

/// `String::push` appends one character at the end.
pub assume_specification[ String::push ](s: &mut String, c: char)
    ensures
        final(s)@ == old(s)@.push(c),
;

/// The characters of `s`, in order.
pub fn chars_of(s: &str) -> (v: Vec<char>)
    ensures
        v@ == s@,
{
    let mut v: Vec<char> = Vec::new();
    for c in it: s.chars()
        invariant
            it.seq() == s@,
            v@ == s@.take(it.index() as int),
    {
        assert(s@.take(it.index() + 1) == s@.take(it.index() as int).push(c));
        v.push(c);
    }
    assert(s@.take(s@.len() as int) == s@);
    v
}

/// The text made of `v[from..to]`.
pub fn text_of(v: &Vec<char>, from: usize, to: usize) -> (s: String)
    requires
        from <= to <= v@.len(),
    ensures
        s@ == v@.subrange(from as int, to as int),
{
    let mut s = String::new();
    let mut i: usize = from;
    while i < to
        invariant
            from <= i <= to <= v@.len(),
            s@ == v@.subrange(from as int, i as int),
        decreases to - i,
    {
        s.push(v[i]);
        assert(v@.subrange(from as int, i + 1) == v@.subrange(from as int, i as int).push(v@[i as int]));
        i = i + 1;
    }
    s
}

/// Whether two texts hold the same characters.
pub fn same(a: &str, b: &str) -> (r: bool)
    ensures
        r == (a@ == b@),
{
    let x = chars_of(a);
    let y = chars_of(b);
    if x.len() != y.len() {
        return false;
    }
    let mut i: usize = 0;
    while i < x.len()
        invariant
            i <= x@.len(),
            x@ == a@,
            y@ == b@,
            x@.len() == y@.len(),
            forall|j: int| 0 <= j < i ==> x@[j] == y@[j],
        decreases x@.len() - i,
    {
        if x[i] != y[i] {
            return false;
        }
        i = i + 1;
    }
    assert(x@ =~= y@);
    true
}

/// The lower case of an ASCII letter; any other character is itself.
pub open spec fn lower_char(c: char) -> char {
    if 'A' <= c && c <= 'Z' {
        (c as u32 + 32) as char
    } else {
        c
    }
}

/// `s` with its ASCII letters in lower case.
pub open spec fn lower(s: Seq<char>) -> Seq<char> {
    s.map_values(|c: char| lower_char(c))
}

/// The upper case of an ASCII letter; any other character is itself.
pub open spec fn upper_char(c: char) -> char {
    if 'a' <= c && c <= 'z' {
        (c as u32 - 32) as char
    } else {
        c
    }
}

/// `s` with its ASCII letters in upper case.
pub open spec fn upper(s: Seq<char>) -> Seq<char> {
    s.map_values(|c: char| upper_char(c))
}

fn to_lower_char(c: char) -> (r: char)
    ensures
        r == lower_char(c),
{
    if 'A' <= c && c <= 'Z' {
        let b: u8 = c as u8;
        (b + 32) as char
    } else {
        c
    }
}

fn to_upper_char(c: char) -> (r: char)
    ensures
        r == upper_char(c),
{
    if 'a' <= c && c <= 'z' {
        let b: u8 = c as u8;
        (b - 32) as char
    } else {
        c
    }
}

/// `s` with its ASCII letters in lower case.
pub fn to_lower(s: &str) -> (r: String)
    ensures
        r@ == lower(s@),
{
    let v = chars_of(s);
    let mut r = String::new();
    let mut i: usize = 0;
    while i < v.len()
        invariant
            i <= v@.len(),
            v@ == s@,
            r@ == lower(s@).take(i as int),
        decreases v@.len() - i,
    {
        r.push(to_lower_char(v[i]));
        assert(lower(s@).take(i + 1) == lower(s@).take(i as int).push(lower(s@)[i as int]));
        i = i + 1;
    }
    assert(lower(s@).take(s@.len() as int) == lower(s@));
    r
}

/// `s` with its ASCII letters in upper case.
pub fn to_upper(s: &str) -> (r: String)
    ensures
        r@ == upper(s@),
{
    let v = chars_of(s);
    let mut r = String::new();
    let mut i: usize = 0;
    while i < v.len()
        invariant
            i <= v@.len(),
            v@ == s@,
            r@ == upper(s@).take(i as int),
        decreases v@.len() - i,
    {
        r.push(to_upper_char(v[i]));
        assert(upper(s@).take(i + 1) == upper(s@).take(i as int).push(upper(s@)[i as int]));
        i = i + 1;
    }
    assert(upper(s@).take(s@.len() as int) == upper(s@));
    r
}

/// The characters with Unicode's `White_Space` property.
pub open spec fn is_white(c: char) -> bool {
    ||| 0x09 <= c as u32 <= 0x0d
    ||| c as u32 == 0x20
    ||| c as u32 == 0x85
    ||| c as u32 == 0xa0
    ||| c as u32 == 0x1680
    ||| 0x2000 <= c as u32 <= 0x200a
    ||| c as u32 == 0x2028
    ||| c as u32 == 0x2029
    ||| c as u32 == 0x202f
    ||| c as u32 == 0x205f
    ||| c as u32 == 0x3000
}

fn white(c: char) -> (r: bool)
    ensures
        r == is_white(c),
{
    let n: u32 = c as u32;
    (0x09 <= n && n <= 0x0d) || n == 0x20 || n == 0x85 || n == 0xa0 || n == 0x1680 || (0x2000 <= n
        && n <= 0x200a) || n == 0x2028 || n == 0x2029 || n == 0x202f || n == 0x205f || n == 0x3000
}

/// `s` without the white space at its front.
pub open spec fn trim_front(s: Seq<char>) -> Seq<char>
    decreases s.len(),
{
    if s.len() > 0 && is_white(s[0]) {
        trim_front(s.drop_first())
    } else {
        s
    }
}

/// `s` without the white space at its back.
pub open spec fn trim_back(s: Seq<char>) -> Seq<char>
    decreases s.len(),
{
    if s.len() > 0 && is_white(s.last()) {
        trim_back(s.drop_last())
    } else {
        s
    }
}

/// `s` without the white space at either end.
pub open spec fn trimmed(s: Seq<char>) -> Seq<char> {
    trim_back(trim_front(s))
}

/// `s` without the white space at either end.
pub fn trim(s: &str) -> (r: String)
    ensures
        r@ == trimmed(s@),
{
    let v = chars_of(s);
    let mut from: usize = 0;
    assert(v@.subrange(0, v@.len() as int) == s@);
    while from < v.len() && white(v[from])
        invariant
            from <= v@.len(),
            v@ == s@,
            trim_front(s@) == trim_front(v@.subrange(from as int, v@.len() as int)),
        decreases v@.len() - from,
    {
        assert(v@.subrange(from as int, v@.len() as int).drop_first() == v@.subrange(
            from + 1,
            v@.len() as int,
        ));
        from = from + 1;
    }
    let mut to: usize = v.len();
    while from < to && white(v[to - 1])
        invariant
            from <= to <= v@.len(),
            v@ == s@,
            trimmed(s@) == trim_back(v@.subrange(from as int, to as int)),
        decreases to,
    {
        assert(v@.subrange(from as int, to as int).drop_last() == v@.subrange(
            from as int,
            to - 1,
        ));
        to = to - 1;
    }
    text_of(&v, from, to)
}

/// The first place of `c` in `s` from `from` on.
pub open spec fn first_place(s: Seq<char>, c: char, from: int) -> Option<int>
    decreases s.len() - from,
{
    if from < 0 || from >= s.len() {
        None
    } else if s[from] == c {
        Some(from)
    } else {
        first_place(s, c, from + 1)
    }
}

/// Where `c` first stands in `v` at or after `from`.
pub fn find_char(v: &Vec<char>, c: char, from: usize) -> (r: Option<usize>)
    ensures
        match r {
            Some(i) => first_place(v@, c, from as int) == Some(i as int) && from <= i < v@.len()
                && v@[i as int] == c,
            None => first_place(v@, c, from as int) is None,
        },
        r matches Some(i) ==> forall|j: int| from <= j < i ==> v@[j] != c,
        r is None ==> forall|j: int| from <= j < v@.len() ==> v@[j] != c,
{
    let mut i: usize = from;
    while i < v.len()
        invariant
            from <= i,
            first_place(v@, c, from as int) == first_place(v@, c, i as int),
            forall|j: int| from <= j < i ==> v@[j] != c,
        decreases v@.len() - i,
    {
        if v[i] == c {
            return Some(i);
        }
        i = i + 1;
    }
    None
}

/// Whether `c` occurs in `s`.
pub fn has_char(s: &str, c: char) -> (r: bool)
    ensures
        r == s@.contains(c),
{
    let v = chars_of(s);
    match find_char(&v, c, 0) {
        Some(i) => {
            assert(s@[i as int] == c);
            true
        },
        None => false,
    }
}

/// The two sides of the first `c` in `s`.
pub open spec fn cut(s: Seq<char>, c: char) -> Option<(Seq<char>, Seq<char>)> {
    match first_place(s, c, 0) {
        Some(i) => Some((s.subrange(0, i), s.subrange(i + 1, s.len() as int))),
        None => None,
    }
}

/// The two sides of the first `c` in `s`.
pub fn split_once(s: &str, c: char) -> (r: Option<(String, String)>)
    ensures
        match r {
            Some(p) => cut(s@, c) == Some((p.0@, p.1@)),
            None => cut(s@, c) is None,
        },
{
    let v = chars_of(s);
    match find_char(&v, c, 0) {
        Some(i) => {
            let n: usize = v.len();
            let front = text_of(&v, 0, i);
            let back = text_of(&v, i + 1, n);
            Some((front, back))
        },
        None => None,
    }
}

/// What follows `prefix` in `s`, where `s` starts with it.
pub open spec fn after(s: Seq<char>, prefix: Seq<char>) -> Option<Seq<char>> {
    if prefix.is_prefix_of(s) {
        Some(s.subrange(prefix.len() as int, s.len() as int))
    } else {
        None
    }
}

/// What follows `prefix` in `s`, where `s` starts with it.
pub fn strip_prefix(s: &str, prefix: &str) -> (r: Option<String>)
    ensures
        match r {
            Some(t) => after(s@, prefix@) == Some(t@),
            None => after(s@, prefix@) is None,
        },
{
    let v = chars_of(s);
    let p = chars_of(prefix);
    if p.len() > v.len() {
        return None;
    }
    let mut i: usize = 0;
    while i < p.len()
        invariant
            i <= p@.len() <= v@.len(),
            v@ == s@,
            p@ == prefix@,
            forall|j: int| 0 <= j < i ==> p@[j] == v@[j],
        decreases p@.len() - i,
    {
        if p[i] != v[i] {
            assert(!(p@ =~= v@.subrange(0, p@.len() as int))) by {
                assert(v@.subrange(0, p@.len() as int)[i as int] == v@[i as int]);
            }
            return None;
        }
        i = i + 1;
    }
    assert(p@ =~= v@.subrange(0, p@.len() as int));
    Some(text_of(&v, p.len(), v.len()))
}

/// The pieces of `s` between the occurrences of `sep`; never empty.
pub open spec fn pieces(s: Seq<char>, sep: char) -> Seq<Seq<char>>
    decreases s.len(),
{
    if s.len() == 0 {
        seq![Seq::<char>::empty()]
    } else {
        let front = pieces(s.drop_last(), sep);
        if s.last() == sep {
            front.push(Seq::<char>::empty())
        } else {
            front.drop_last().push(front.last().push(s.last()))
        }
    }
}

/// The texts of `parts`, one after the other, with `sep` between neighbours.
pub open spec fn joined(parts: Seq<Seq<char>>, sep: char) -> Seq<char>
    decreases parts.len(),
{
    if parts.len() == 0 {
        Seq::empty()
    } else if parts.len() == 1 {
        parts[0]
    } else {
        joined(parts.drop_last(), sep).push(sep) + parts.last()
    }
}

/// The views of a list of texts.
pub open spec fn texts(v: Seq<String>) -> Seq<Seq<char>> {
    v.map_values(|s: String| s@)
}

/// There is always a piece.
pub proof fn pieces_not_empty(s: Seq<char>, sep: char)
    ensures
        pieces(s, sep).len() > 0,
    decreases s.len(),
{
    if s.len() > 0 {
        pieces_not_empty(s.drop_last(), sep);
    }
}

/// Splitting a text and joining the pieces again gives the text back.
pub proof fn join_undoes_split(s: Seq<char>, sep: char)
    ensures
        joined(pieces(s, sep), sep) == s,
    decreases s.len(),
{
    if s.len() > 0 {
        let front = pieces(s.drop_last(), sep);
        join_undoes_split(s.drop_last(), sep);
        pieces_not_empty(s.drop_last(), sep);
        let all = pieces(s, sep);
        if s.last() == sep {
            assert(all.drop_last() == front);
            assert(joined(all, sep) == joined(front, sep).push(sep) + Seq::<char>::empty());
        } else {
            assert(all.drop_last() == front.drop_last());
            assert(all.last() == front.last().push(s.last()));
            if front.len() == 1 {
                assert(joined(all, sep) == front[0].push(s.last()));
            } else {
                assert(joined(all, sep) == joined(front.drop_last(), sep).push(sep) + front.last().push(
                    s.last(),
                ));
                assert(joined(all, sep) == joined(front, sep).push(s.last()));
            }
        }
        assert(s.drop_last().push(s.last()) == s);
    }
}

/// A text without `sep` is a single piece.
pub proof fn one_piece(s: Seq<char>, sep: char)
    requires
        !s.contains(sep),
    ensures
        pieces(s, sep) == seq![s],
    decreases s.len(),
{
    if s.len() == 0 {
        assert(s == Seq::<char>::empty());
    } else {
        let front = s.drop_last();
        assert(!front.contains(sep)) by {
            if front.contains(sep) {
                let i = choose|i: int| 0 <= i < front.len() && front[i] == sep;
                assert(s[i] == sep);
            }
        }
        one_piece(front, sep);
        assert(s.last() != sep) by {
            assert(s[s.len() - 1] == s.last());
        }
        assert(front.push(s.last()) == s);
        assert(seq![front].drop_last().push(s) == seq![s]);
    }
}

/// The pieces of two texts with `sep` between them are those of the one and then those
/// of the other.
pub proof fn pieces_of_both(s: Seq<char>, t: Seq<char>, sep: char)
    ensures
        pieces(s.push(sep) + t, sep) == pieces(s, sep) + pieces(t, sep),
    decreases t.len(),
{
    let both = s.push(sep) + t;
    if t.len() == 0 {
        assert(both == s.push(sep));
        assert(both.drop_last() == s);
        assert(pieces(t, sep) == seq![Seq::<char>::empty()]);
    } else {
        let u = t.drop_last();
        pieces_of_both(s, u, sep);
        pieces_not_empty(u, sep);
        assert(both.drop_last() == s.push(sep) + u);
        assert(both.last() == t.last());
        let front = pieces(s, sep) + pieces(u, sep);
        assert(front.drop_last() == pieces(s, sep) + pieces(u, sep).drop_last());
        assert(front.last() == pieces(u, sep).last());
    }
}

/// No piece holds the separator.
pub proof fn pieces_hold_no_separator(s: Seq<char>, sep: char, i: int)
    requires
        0 <= i < pieces(s, sep).len(),
    ensures
        !pieces(s, sep)[i].contains(sep),
    decreases s.len(),
{
    if s.len() > 0 {
        let front = pieces(s.drop_last(), sep);
        pieces_not_empty(s.drop_last(), sep);
        if i < front.len() {
            pieces_hold_no_separator(s.drop_last(), sep, i);
        }
        if s.last() != sep && i == front.len() - 1 {
            let piece = front.last().push(s.last());
            assert(pieces(s, sep)[i] == piece);
            if piece.contains(sep) {
                let k = choose|k: int| 0 <= k < piece.len() && piece[k] == sep;
                assert(front.last()[k] == sep);
            }
        }
    }
}

/// The pieces of `s` between the occurrences of `sep`.
pub fn split(s: &str, sep: char) -> (r: Vec<String>)
    ensures
        texts(r@) == pieces(s@, sep),
{
    let v = chars_of(s);
    let mut r: Vec<String> = Vec::new();
    let mut piece = String::new();
    let mut i: usize = 0;
    assert(texts(r@).push(piece@) =~= pieces(s@.take(0), sep));
    while i < v.len()
        invariant
            i <= v@.len(),
            v@ == s@,
            texts(r@).push(piece@) == pieces(s@.take(i as int), sep),
        decreases v@.len() - i,
    {
        let ghost before = pieces(s@.take(i as int), sep);
        let ghost done = texts(r@);
        proof {
            assert(s@.take(i + 1).drop_last() == s@.take(i as int));
            assert(s@.take(i + 1).last() == v@[i as int]);
            assert(before.drop_last() == done);
            assert(before.last() == piece@);
        }
        if v[i] == sep {
            r.push(piece);
            piece = String::new();
            assert(texts(r@) == before);
        } else {
            piece.push(v[i]);
        }
        i = i + 1;
    }
    assert(s@.take(s@.len() as int) == s@);
    let ghost done = texts(r@);
    let ghost last = piece@;
    r.push(piece);
    assert(texts(r@) == done.push(last));
    r
}

/// The texts of `parts`, one after the other, with `sep` between neighbours.
pub fn join(parts: &Vec<String>, sep: char) -> (r: String)
    ensures
        r@ == joined(texts(parts@), sep),
{
    let mut r = String::new();
    let mut i: usize = 0;
    while i < parts.len()
        invariant
            i <= parts@.len(),
            r@ == joined(texts(parts@).take(i as int), sep),
        decreases parts@.len() - i,
    {
        proof {
            assert(texts(parts@).take(i + 1).drop_last() == texts(parts@).take(i as int));
            assert(texts(parts@).take(i + 1).last() == parts@[i as int]@);
        }
        if i > 0 {
            r.push(sep);
        }
        r.append(parts[i].as_str());
        i = i + 1;
    }
    assert(texts(parts@).take(parts@.len() as int) == texts(parts@));
    r
}

/// The decimal digit for `d`.
pub open spec fn digit(d: nat) -> char {
    ('0' as u32 + d) as char
}

/// `n` in decimal, without leading zeros.
pub open spec fn decimal(n: nat) -> Seq<char>
    decreases n,
{
    if n < 10 {
        seq![digit(n)]
    } else {
        decimal(n / 10).push(digit(n % 10))
    }
}

/// `n` in decimal, without leading zeros.
pub fn decimal_text(n: u64) -> (r: String)
    ensures
        r@ == decimal(n as nat),
    decreases n,
{
    let d: u8 = (n % 10) as u8;
    let c: char = (48u8 + d) as char;
    if n < 10 {
        let mut r = String::new();
        r.push(c);
        assert(r@ =~= decimal(n as nat));
        r
    } else {
        let mut r = decimal_text(n / 10);
        r.push(c);
        r
    }
}

/// The value of a decimal digit.
pub open spec fn digit_value(c: char) -> Option<nat> {
    if '0' <= c && c <= '9' {
        Some((c as nat - '0' as nat) as nat)
    } else {
        None
    }
}

/// The number that decimal digits make up; none where there is something else among them.
pub open spec fn digits_value(s: Seq<char>) -> Option<nat>
    decreases s.len(),
{
    if s.len() == 0 {
        Some(0)
    } else {
        match (digits_value(s.drop_last()), digit_value(s.last())) {
            (Some(front), Some(d)) => Some(10 * front + d),
            _ => None,
        }
    }
}

/// The natural number that a text in decimal stands for.
pub open spec fn natural(s: Seq<char>) -> Option<nat> {
    if s.len() == 0 {
        None
    } else {
        digits_value(s)
    }
}

/// A number in decimal stands for that number.
pub proof fn decimal_is_read_back(n: nat)
    ensures
        natural(decimal(n)) == Some(n),
    decreases n,
{
    reveal_with_fuel(digits_value, 2);
    if n < 10 {
        assert(decimal(n).drop_last() == Seq::<char>::empty());
        assert(decimal(n).last() == digit(n));
    } else {
        decimal_is_read_back(n / 10);
        assert(decimal(n).drop_last() == decimal(n / 10));
        assert(decimal(n).last() == digit(n % 10));
    }
}

proof fn digits_value_grows(s: Seq<char>, i: int)
    requires
        0 <= i <= s.len(),
    ensures
        digits_value(s.take(i)) is None ==> digits_value(s) is None,
        digits_value(s) matches Some(n) ==> digits_value(s.take(i)) is Some && digits_value(
            s.take(i),
        )->0 <= n,
    decreases s.len(),
{
    if i < s.len() {
        assert(s.drop_last().take(i) == s.take(i));
        digits_value_grows(s.drop_last(), i);
    } else {
        assert(s.take(i) == s);
    }
}

/// The natural number that a text in decimal stands for; none where it does not fit.
pub fn read_u32(s: &str) -> (r: Option<u32>)
    ensures
        r == match natural(s@) {
            Some(n) => if n <= u32::MAX {
                Some(n as u32)
            } else {
                None
            },
            None => None,
        },
{
    let v = chars_of(s);
    if v.len() == 0 {
        return None;
    }
    let mut value: u32 = 0;
    let mut i: usize = 0;
    assert(s@.take(0) =~= Seq::<char>::empty());
    while i < v.len()
        invariant
            i <= v@.len(),
            v@ == s@,
            s@.len() > 0,
            digits_value(s@.take(i as int)) == Some(value as nat),
        decreases v@.len() - i,
    {
        let c: char = v[i];
        proof {
            assert(s@.take(i + 1).drop_last() == s@.take(i as int));
            assert(s@.take(i + 1).last() == c);
            digits_value_grows(s@, i + 1);
        }
        if c < '0' || '9' < c {
            return None;
        }
        let d: u32 = c as u32 - '0' as u32;
        if value > (u32::MAX - d) / 10 {
            assert(10 * value + d > u32::MAX);
            return None;
        }
        value = 10 * value + d;
        i = i + 1;
    }
    assert(s@.take(s@.len() as int) == s@);
    Some(value)
}

/// `s` followed by as many spaces as bring it to `width` characters.
pub open spec fn padded(s: Seq<char>, width: nat) -> Seq<char> {
    if s.len() < width {
        s + Seq::new((width - s.len()) as nat, |i: int| ' ')
    } else {
        s
    }
}

/// `s` followed by as many spaces as bring it to `width` characters.
pub fn pad(s: &str, width: usize) -> (r: String)
    ensures
        r@ == padded(s@, width as nat),
{
    let mut r = s.to_string();
    let mut n: usize = s.unicode_len();
    if n >= width {
        return r;
    }
    while n < width
        invariant
            s@.len() <= n <= width,
            r@ == s@ + Seq::new((n - s@.len()) as nat, |i: int| ' '),
        decreases width - n,
    {
        r.push(' ');
        n = n + 1;
        assert(r@ =~= s@ + Seq::new((n - s@.len()) as nat, |i: int| ' '));
    }
    r
}

/// Lexicographic order by code point, which is also the order of the bytes of
/// the UTF-8 encodings.
pub open spec fn at_most(a: Seq<char>, b: Seq<char>) -> bool
    decreases a.len(),
{
    ||| a.len() == 0
    ||| b.len() > 0 && a[0] < b[0]
    ||| b.len() > 0 && a[0] == b[0] && at_most(a.drop_first(), b.drop_first())
}

/// Any two texts are in order one way or the other.
pub proof fn at_most_total(a: Seq<char>, b: Seq<char>)
    ensures
        at_most(a, b) || at_most(b, a),
    decreases a.len(),
{
    if a.len() > 0 && b.len() > 0 && a[0] == b[0] {
        at_most_total(a.drop_first(), b.drop_first());
    }
}

/// The order is transitive.
pub proof fn at_most_transitive(a: Seq<char>, b: Seq<char>, c: Seq<char>)
    requires
        at_most(a, b),
        at_most(b, c),
    ensures
        at_most(a, c),
    decreases a.len(),
{
    if a.len() > 0 && b.len() > 0 && c.len() > 0 && a[0] == b[0] && b[0] == c[0] {
        at_most_transitive(a.drop_first(), b.drop_first(), c.drop_first());
    }
}

/// Texts in order both ways are equal.
pub proof fn at_most_antisymmetric(a: Seq<char>, b: Seq<char>)
    requires
        at_most(a, b),
        at_most(b, a),
    ensures
        a == b,
    decreases a.len(),
{
    if a.len() > 0 && b.len() > 0 {
        at_most_antisymmetric(a.drop_first(), b.drop_first());
        assert(a == seq![a[0]] + a.drop_first());
        assert(b == seq![b[0]] + b.drop_first());
    } else {
        assert(a =~= b);
    }
}

/// Whether `a` comes no later than `b`.
pub fn in_order(a: &str, b: &str) -> (r: bool)
    ensures
        r == at_most(a@, b@),
{
    let x = chars_of(a);
    let y = chars_of(b);
    let mut i: usize = 0;
    assert(x@.subrange(0, x@.len() as int) == a@);
    assert(y@.subrange(0, y@.len() as int) == b@);
    while i < x.len()
        invariant
            i <= x@.len(),
            i <= y@.len(),
            at_most(a@, b@) == at_most(
                x@.subrange(i as int, x@.len() as int),
                y@.subrange(i as int, y@.len() as int),
            ),
        decreases x@.len() - i,
    {
        let ghost p = x@.subrange(i as int, x@.len() as int);
        let ghost q = y@.subrange(i as int, y@.len() as int);
        if i >= y.len() {
            return false;
        }
        let c: char = x[i];
        let d: char = y[i];
        if c < d {
            return true;
        }
        if d < c {
            return false;
        }
        assert(p.drop_first() == x@.subrange(i + 1, x@.len() as int));
        assert(q.drop_first() == y@.subrange(i + 1, y@.len() as int));
        i = i + 1;
    }
    true
}

} // verus!
