//! UTC timestamps of the form `YYYY-MM-DDTHH:MM:SSZ`, as seconds since 1970.
use vstd::prelude::*;

use crate::response::is_digit;

verus! {

pub open spec fn is_leap(y: int) -> bool {
    y % 4 == 0 && (y % 100 != 0 || y % 400 == 0)
}

pub open spec fn year_days(y: int) -> int {
    if is_leap(y) {
        366
    } else {
        365
    }
}

/// Days from 1970-01-01 to the first of January of `y`.
pub open spec fn days_to_year(y: int) -> int
    decreases (if y >= 1970 { y - 1970 } else { 1970 - y }),
{
    if y == 1970 {
        0
    } else if y > 1970 {
        days_to_year(y - 1) + year_days(y - 1)
    } else {
        days_to_year(y + 1) - year_days(y)
    }
}

pub open spec fn days_in_month(y: int, m: int) -> int {
    if m == 2 {
        if is_leap(y) {
            29
        } else {
            28
        }
    } else if m == 4 || m == 6 || m == 9 || m == 11 {
        30
    } else {
        31
    }
}

/// Days in the months of `y` before month `m`.
pub open spec fn days_before_month(y: int, m: int) -> int
    decreases m,
{
    if m <= 1 {
        0
    } else {
        days_before_month(y, m - 1) + days_in_month(y, m - 1)
    }
}

pub open spec fn digit_value(c: char) -> int {
    c as int - '0' as int
}

/// The value of the `n` digits at `i`.
pub open spec fn field(s: Seq<char>, i: int, n: nat) -> int
    decreases n,
{
    if n == 0 {
        0
    } else {
        field(s, i, (n - 1) as nat) * 10 + digit_value(s[i + n - 1])
    }
}

/// Whether `s` has the shape `DDDD-DD-DDTDD:DD:DDZ`.
pub open spec fn has_iso_shape(s: Seq<char>) -> bool {
    &&& s.len() == 20
    &&& s[4] == '-' && s[7] == '-' && s[10] == 'T' && s[13] == ':' && s[16] == ':' && s[19] == 'Z'
    &&& forall|i: int|
        0 <= i < 20 && i != 4 && i != 7 && i != 10 && i != 13 && i != 16 && i != 19 ==> is_digit(
            #[trigger] s[i],
        )
}

/// The seconds since 1970 of a UTC timestamp `YYYY-MM-DDTHH:MM:SSZ` that names a real
/// date and time of day; `None` for any other text.
pub open spec fn iso_seconds(s: Seq<char>) -> Option<int> {
    let y = field(s, 0, 4);
    let mo = field(s, 5, 2);
    let d = field(s, 8, 2);
    let h = field(s, 11, 2);
    let mi = field(s, 14, 2);
    let sec = field(s, 17, 2);
    if has_iso_shape(s) && 1 <= mo <= 12 && 1 <= d <= days_in_month(y, mo) && h <= 23 && mi
        <= 59 && sec <= 59 {
        Some(
            (days_to_year(y) + days_before_month(y, mo) + d - 1) * 86400 + h * 3600 + mi * 60
                + sec,
        )
    } else {
        None
    }
}

/// The value of the `n` digits at `i`, which must all be digits.
fn read_field(s: &str, i: usize, n: usize) -> (r: i64)
    requires
        n <= 4,
        i <= 20,
        i + n <= s@.len(),
        forall|j: int| i <= j < i + n ==> is_digit(#[trigger] s@[j]),
    ensures
        r == field(s@, i as int, n as nat),
        0 <= r < 10000,
{
    let mut v: i64 = 0;
    let mut k: usize = 0;
    while k < n
        invariant
            n <= 4,
            i <= 20,
            k <= n,
            i + n <= s@.len(),
            forall|j: int| i <= j < i + n ==> is_digit(#[trigger] s@[j]),
            v == field(s@, i as int, k as nat),
            0 <= v,
            k == 0 ==> v == 0,
            k <= 1 ==> v <= 9,
            k <= 2 ==> v <= 99,
            k <= 3 ==> v <= 999,
            v <= 9999,
        decreases n - k,
    {
        let c = s.get_char(i + k);
        assert(is_digit(s@[i + k]));
        v = v * 10 + (c as u32 - '0' as u32) as i64;
        k = k + 1;
    }
    v
}

fn is_leap_year(y: i64) -> (r: bool)
    requires
        0 <= y,
    ensures
        r == is_leap(y as int),
{
    y % 4 == 0 && (y % 100 != 0 || y % 400 == 0)
}

fn month_days(y: i64, m: i64) -> (r: i64)
    requires
        0 <= y,
    ensures
        r == days_in_month(y as int, m as int),
{
    if m == 2 {
        if is_leap_year(y) {
            29
        } else {
            28
        }
    } else if m == 4 || m == 6 || m == 9 || m == 11 {
        30
    } else {
        31
    }
}

/// Days from 1970-01-01 to the first of January of `y`.
fn days_to(y: i64) -> (r: i64)
    requires
        0 <= y < 10000,
    ensures
        r == days_to_year(y as int),
        -1970 * 366 <= r <= 8030 * 366,
{
    let mut acc: i64 = 0;
    let mut i: i64 = 1970;
    if y >= 1970 {
        while i < y
            invariant
                1970 <= i <= y < 10000,
                acc == days_to_year(i as int),
                0 <= acc <= (i - 1970) * 366,
            decreases y - i,
        {
            let len: i64 = if is_leap_year(i) { 366 } else { 365 };
            acc = acc + len;
            i = i + 1;
        }
    } else {
        while i > y
            invariant
                0 <= y <= i <= 1970,
                acc == days_to_year(i as int),
                -(1970 - i) * 366 <= acc <= 0,
            decreases i - y,
        {
            let len: i64 = if is_leap_year(i - 1) { 366 } else { 365 };
            proof {
                assert(days_to_year(i - 1) == days_to_year(i as int) - year_days(i - 1));
            }
            acc = acc - len;
            i = i - 1;
        }
    }
    acc
}

/// Days in the months of `y` before month `m`.
fn days_before(y: i64, m: i64) -> (r: i64)
    requires
        0 <= y,
        1 <= m <= 12,
    ensures
        r == days_before_month(y as int, m as int),
        0 <= r <= 366,
{
    let mut acc: i64 = 0;
    let mut k: i64 = 1;
    while k < m
        invariant
            0 <= y,
            1 <= k <= m <= 12,
            acc == days_before_month(y as int, k as int),
            0 <= acc <= (k - 1) * 31,
        decreases m - k,
    {
        acc = acc + month_days(y, k);
        k = k + 1;
    }
    acc
}

fn char_at(s: &str, i: usize, c: char) -> (r: bool)
    requires
        i < s@.len(),
    ensures
        r == (s@[i as int] == c),
{
    s.get_char(i) == c
}

/// The seconds since 1970 of a UTC timestamp `YYYY-MM-DDTHH:MM:SSZ`, where the text has
/// that form and names a real date and time of day.
pub fn parse_iso_seconds(s: &str) -> (r: Option<i64>)
    ensures
        match iso_seconds(s@) {
            Some(t) => r == Some(t as i64) && t == r->Some_0 as int,
            None => r is None,
        },
{
    if s.unicode_len() != 20 {
        return None;
    }
    if !(char_at(s, 4, '-') && char_at(s, 7, '-') && char_at(s, 10, 'T') && char_at(s, 13, ':')
        && char_at(s, 16, ':') && char_at(s, 19, 'Z')) {
        return None;
    }
    let mut i: usize = 0;
    while i < 20
        invariant
            s@.len() == 20,
            i <= 20,
            forall|j: int|
                0 <= j < i && j != 4 && j != 7 && j != 10 && j != 13 && j != 16 && j != 19
                    ==> is_digit(#[trigger] s@[j]),
        decreases 20 - i,
    {
        if i != 4 && i != 7 && i != 10 && i != 13 && i != 16 && i != 19 {
            let c = s.get_char(i);
            if !('0' <= c && c <= '9') {
                return None;
            }
        }
        i = i + 1;
    }
    assert(has_iso_shape(s@));
    let y = read_field(s, 0, 4);
    let mo = read_field(s, 5, 2);
    let d = read_field(s, 8, 2);
    let h = read_field(s, 11, 2);
    let mi = read_field(s, 14, 2);
    let sec = read_field(s, 17, 2);
    if !(1 <= mo && mo <= 12) {
        return None;
    }
    if !(1 <= d && d <= month_days(y, mo) && h <= 23 && mi <= 59 && sec <= 59) {
        return None;
    }
    let days = days_to(y) + days_before(y, mo) + d - 1;
    Some(days * 86400 + h * 3600 + mi * 60 + sec)
}

} // verus!
