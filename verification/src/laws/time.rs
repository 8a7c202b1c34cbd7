//! What a timestamp says.

use vstd::prelude::*;

use crate::text;
use crate::time::{date_of, day_number, is_date, rfc3339, two_digits};

verus! {

proof fn two_digits_read_back(n: nat)
    requires
        n < 100,
    ensures
        text::natural(two_digits(n)) == Some(n),
        two_digits(n).len() == 2,
{
    let s = two_digits(n);
    reveal_with_fuel(text::digits_value, 3);
    assert(s.drop_last() =~= seq![s[0]]);
    assert(s.drop_last().drop_last() =~= Seq::<char>::empty());
    assert(s.drop_last().last() == s[0]);
    assert(s.last() == s[1]);
    assert(n / 10 % 10 == n / 10);
}

proof fn parts_are_in_place(
    y: Seq<char>,
    z: Seq<char>,
    m: Seq<char>,
    d: Seq<char>,
    h: Seq<char>,
    n: Seq<char>,
    t: Seq<char>,
)
    requires
        y.len() == 2,
        z.len() == 2,
        m.len() == 2,
        d.len() == 2,
        h.len() == 2,
        n.len() == 2,
        t.len() == 2,
    ensures
        ({
            let s = y + z + seq!['-'] + m + seq!['-'] + d + seq!['T'] + h + seq![':'] + n + seq![
                ':',
            ] + t + seq!['Z'];
            &&& s.len() == 20
            &&& s.subrange(5, 7) == m
            &&& s.subrange(8, 10) == d
            &&& s.subrange(11, 13) == h
            &&& s.subrange(14, 16) == n
            &&& s.subrange(17, 19) == t
        }),
{
    let s = y + z + seq!['-'] + m + seq!['-'] + d + seq!['T'] + h + seq![':'] + n + seq![':'] + t
        + seq!['Z'];
    assert(s.subrange(5, 7) =~= m);
    assert(s.subrange(8, 10) =~= d);
    assert(s.subrange(11, 13) =~= h);
    assert(s.subrange(14, 16) =~= n);
    assert(s.subrange(17, 19) =~= t);
}

/// A timestamp gives the time of day back, in hours, minutes and seconds, and the month and the
/// day on which it falls, in the places where they are looked for.
pub proof fn timestamps_tell_the_time(secs: nat)
    ensures
        ({
            let s = rfc3339(secs);
            let date = date_of(secs / 86400);
            let rest = secs % 86400;
            &&& s.len() == 20
            &&& is_date(date.0, date.1, date.2)
            &&& day_number(date.0, date.1, date.2) == secs / 86400
            &&& text::natural(s.subrange(5, 7)) == Some(date.1)
            &&& text::natural(s.subrange(8, 10)) == Some(date.2)
            &&& text::natural(s.subrange(11, 13)) == Some(rest / 3600)
            &&& text::natural(s.subrange(14, 16)) == Some(rest / 60 % 60)
            &&& text::natural(s.subrange(17, 19)) == Some(rest % 60)
        }),
{
    let date = date_of(secs / 86400);
    let rest = secs % 86400;
    crate::time::every_day_has_a_date(secs / 86400);
    assert(date.2 <= 31);
    two_digits_read_back(date.1);
    two_digits_read_back(date.2);
    two_digits_read_back(rest / 3600);
    two_digits_read_back(rest / 60 % 60);
    two_digits_read_back(rest % 60);
    parts_are_in_place(
        two_digits(date.0 / 100),
        two_digits(date.0 % 100),
        two_digits(date.1),
        two_digits(date.2),
        two_digits(rest / 3600),
        two_digits(rest / 60 % 60),
        two_digits(rest % 60),
    );
}

} // verus!
