//! How texts are compared, cut and written.

use vstd::prelude::*;

use crate::text;

verus! {

/// The first character in which two texts differ decides their order.
pub proof fn first_difference_decides(
    same: Seq<char>,
    x: char,
    y: char,
    a_rest: Seq<char>,
    b_rest: Seq<char>,
)
    requires
        x < y,
    ensures
        text::at_most(same.push(x) + a_rest, same.push(y) + b_rest),
        !text::at_most(same.push(y) + b_rest, same.push(x) + a_rest),
    decreases same.len(),
{
    let a = same.push(x) + a_rest;
    let b = same.push(y) + b_rest;
    if same.len() > 0 {
        let rest = same.drop_first();
        first_difference_decides(rest, x, y, a_rest, b_rest);
        assert(a.drop_first() =~= rest.push(x) + a_rest);
        assert(b.drop_first() =~= rest.push(y) + b_rest);
        assert(a[0] == same[0]);
        assert(b[0] == same[0]);
    } else {
        assert(a[0] == x);
        assert(b[0] == y);
    }
}

/// A text comes before every longer one that starts with it.
pub proof fn shorter_comes_first(a: Seq<char>, rest: Seq<char>)
    ensures
        text::at_most(a, a + rest),
        rest.len() > 0 ==> !text::at_most(a + rest, a),
    decreases a.len(),
{
    if a.len() > 0 {
        shorter_comes_first(a.drop_first(), rest);
        assert((a + rest).drop_first() =~= a.drop_first() + rest);
    }
}

/// What stands behind a prefix is what was put there.
pub proof fn prefix_comes_off(prefix: Seq<char>, rest: Seq<char>)
    ensures
        text::after(prefix + rest, prefix) == Some(rest),
{
    assert(prefix.is_prefix_of(prefix + rest)) by {
        assert((prefix + rest).subrange(0, prefix.len() as int) =~= prefix);
    }
    assert((prefix + rest).subrange(prefix.len() as int, (prefix + rest).len() as int) =~= rest);
}

/// A prefix comes off only where it is there.
pub proof fn prefix_was_there(s: Seq<char>, prefix: Seq<char>)
    ensures
        text::after(s, prefix) matches Some(rest) ==> s == prefix + rest,
{
    if let Some(rest) = text::after(s, prefix) {
        assert(s =~= prefix + rest);
    }
}

proof fn first_place_at(s: Seq<char>, c: char, from: int, i: int)
    requires
        0 <= from <= i < s.len(),
        s[i] == c,
        forall|j: int| from <= j < i ==> s[j] != c,
    ensures
        text::first_place(s, c, from) == Some(i),
    decreases i - from,
{
    if from < i {
        first_place_at(s, c, from + 1, i);
    }
}

proof fn no_first_place(s: Seq<char>, c: char, from: int)
    requires
        0 <= from <= s.len(),
        forall|j: int| from <= j < s.len() ==> s[j] != c,
    ensures
        text::first_place(s, c, from) is None,
    decreases s.len() - from,
{
    if from < s.len() {
        no_first_place(s, c, from + 1);
    }
}

/// A text is cut at the first separator, and not at all where there is none.
pub proof fn cut_at_the_first(front: Seq<char>, c: char, back: Seq<char>)
    requires
        !front.contains(c),
    ensures
        text::cut(front.push(c) + back, c) == Some((front, back)),
        text::cut(front, c) is None,
{
    let s = front.push(c) + back;
    assert forall|j: int| 0 <= j < front.len() implies s[j] != c by {
        assert(front.contains(front[j]));
    }
    assert forall|j: int| 0 <= j < front.len() implies front[j] != c by {
        assert(front.contains(front[j]));
    }
    first_place_at(s, c, 0, front.len() as int);
    no_first_place(front, c, 0);
    assert(s.subrange(0, front.len() as int) =~= front);
    assert(s.subrange(front.len() as int + 1, s.len() as int) =~= back);
}

/// A text that is padded starts with itself, is as wide as it is to be, or as it was, and has
/// only blanks behind it.
pub proof fn padding_is_blank(s: Seq<char>, width: nat)
    ensures
        s.is_prefix_of(text::padded(s, width)),
        text::padded(s, width).len() == if s.len() < width {
            width
        } else {
            s.len()
        },
        forall|i: int|
            s.len() <= i < text::padded(s, width).len() ==> #[trigger] text::padded(s, width)[i]
                == ' ',
{
    assert(text::padded(s, width).subrange(0, s.len() as int) =~= s);
}

/// A character that Unicode counts as white space.
pub open spec fn blank(c: char) -> bool {
    seq![
        0x09int, 0x0a, 0x0b, 0x0c, 0x0d, 0x20, 0x85, 0xa0, 0x1680, 0x2000, 0x2001, 0x2002, 0x2003,
        0x2004, 0x2005, 0x2006, 0x2007, 0x2008, 0x2009, 0x200a, 0x2028, 0x2029, 0x202f, 0x205f,
        0x3000,
    ].contains(c as int)
}

proof fn blank_is_white(c: char)
    ensures
        blank(c) == text::is_white(c),
{
    let all = seq![
        0x09int, 0x0a, 0x0b, 0x0c, 0x0d, 0x20, 0x85, 0xa0, 0x1680, 0x2000, 0x2001, 0x2002, 0x2003,
        0x2004, 0x2005, 0x2006, 0x2007, 0x2008, 0x2009, 0x200a, 0x2028, 0x2029, 0x202f, 0x205f,
        0x3000,
    ];
    let n = c as int;
    if text::is_white(c) {
        let k: int = if n <= 0x0d {
            n - 0x09
        } else if n == 0x20 {
            5
        } else if n == 0x85 {
            6
        } else if n == 0xa0 {
            7
        } else if n == 0x1680 {
            8
        } else if n <= 0x200a {
            n - 0x2000 + 9
        } else if n == 0x2028 {
            20
        } else if n == 0x2029 {
            21
        } else if n == 0x202f {
            22
        } else if n == 0x205f {
            23
        } else {
            24
        };
        assert(all[k] == n);
    }
}

/// Blanks are taken off the front and the back of a text, and nothing else is: a text that
/// neither starts nor ends in one stays as it is.
pub proof fn blanks_are_trimmed(s: Seq<char>, c: char)
    requires
        s.len() > 0,
        !blank(s[0]),
        !blank(s[s.len() - 1]),
    ensures
        text::trimmed(s) == s,
        blank(c) ==> text::trimmed(seq![c] + s) == s,
        blank(c) ==> text::trimmed(s.push(c)) == s,
{
    blank_is_white(s[0]);
    blank_is_white(s[s.len() - 1]);
    blank_is_white(c);
    if blank(c) {
        assert((seq![c] + s).drop_first() =~= s);
        assert((seq![c] + s)[0] == c);
        assert(s.push(c).drop_last() =~= s);
        assert(s.push(c)[0] == s[0]);
        assert(text::trim_front(s) == s);
    }
}

/// A number is written without leading zeros.
pub proof fn numbers_have_no_leading_zeros(n: nat)
    ensures
        text::decimal(n).len() > 0,
        n == 0 ==> text::decimal(n) == "0"@,
        n > 0 ==> text::decimal(n)[0] != '0',
    decreases n,
{
    reveal_strlit("0");
    if n < 10 {
        assert(text::decimal(n)[0] == text::digit(n));
        if n == 0 {
            assert(text::decimal(n) =~= "0"@);
        }
    } else {
        numbers_have_no_leading_zeros(n / 10);
        assert(text::decimal(n)[0] == text::decimal(n / 10)[0]);
    }
}

/// A number is read digit by digit: one more digit makes it ten times what it was, and the
/// digit. What holds anything but digits, or nothing, is no number.
pub proof fn numbers_are_decimal(s: Seq<char>, n: nat, d: int, c: char)
    requires
        0 <= d < 10,
        !"0123456789"@.contains(c),
    ensures
        text::natural(seq!["0123456789"@[d]]) == Some(d as nat),
        text::natural(s) == Some(n) ==> text::natural(s.push("0123456789"@[d])) == Some(
            (10 * n + d) as nat,
        ),
        text::natural(s.push(c)) is None,
        text::natural(Seq::empty()) is None,
{
    let all = "0123456789"@;
    reveal_strlit("0123456789");
    reveal_with_fuel(text::digits_value, 2);
    let one = seq![all[d]];
    assert(one.drop_last() =~= Seq::<char>::empty());
    assert(one.last() == all[d]);
    assert(s.push(all[d]).drop_last() =~= s);
    assert(s.push(c).drop_last() =~= s);
    assert(text::digit_value(c) is None) by {
        if text::digit_value(c) is Some {
            assert(all[c as int - '0' as int] == c);
        }
    }
}

} // verus!
