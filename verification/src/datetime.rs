//! Calendar arithmetic on Unix time: whole days between two instants
//! (rounding toward minus infinity), and the civil date and time of day of
//! an instant, rendered as the store's timestamp directory names and as
//! `YYYY-MM-DD` expiry dates.

use vstd::prelude::*;
use vstd::string::StringExecFns;
use vstd::arithmetic::div_mod::lemma_fundamental_div_mod_converse;
use crate::digits::{padded_digits, u64_to_padded_string};

verus! {

pub open spec fn is_leap_year(y: int) -> bool {
    y % 4 == 0 && (y % 100 != 0 || y % 400 == 0)
}

pub open spec fn days_in_year(y: int) -> int {
    if is_leap_year(y) {
        366
    } else {
        365
    }
}

/// Days from 1970-01-01 to the first day of year `y`.
pub open spec fn days_before_year(y: int) -> int
    decreases y - 1970,
{
    if y <= 1970 {
        0
    } else {
        days_before_year(y - 1) + days_in_year(y - 1)
    }
}

pub open spec fn days_in_month(y: int, m: int) -> int {
    if m == 2 {
        if is_leap_year(y) {
            29
        } else {
            28
        }
    } else if m == 4 || m == 6 || m == 9 || m == 11 {
        30
    } else {
        31
    }
}

/// Days from the first day of year `y` to the first day of its month `m`.
pub open spec fn days_before_month(y: int, m: int) -> int
    decreases m,
{
    if m <= 1 {
        0
    } else {
        days_before_month(y, m - 1) + days_in_month(y, m - 1)
    }
}

/// Days from 1970-01-01 to the civil date `y-m-d`.
pub open spec fn civil_to_days(y: int, m: int, d: int) -> int {
    days_before_year(y) + days_before_month(y, m) + d - 1
}

/// The twelve months of `y` sum to its year length.
proof fn lemma_months_sum(y: int)
    ensures
        days_before_month(y, 13) == days_in_year(y),
{
    assert(days_before_month(y, 13) == days_in_year(y)) by {
        reveal_with_fuel(days_before_month, 14);
    }
}

fn is_leap_year_exec(y: u64) -> (r: bool)
    ensures
        r == is_leap_year(y as int),
{
    y % 4 == 0 && (y % 100 != 0 || y % 400 == 0)
}

fn days_in_year_exec(y: u64) -> (r: u64)
    ensures
        r as int == days_in_year(y as int),
{
    if is_leap_year_exec(y) {
        366
    } else {
        365
    }
}

fn days_in_month_exec(y: u64, m: u64) -> (r: u64)
    ensures
        r as int == days_in_month(y as int, m as int),
{
    if m == 2 {
        if is_leap_year_exec(y) {
            29
        } else {
            28
        }
    } else if m == 4 || m == 6 || m == 9 || m == 11 {
        30
    } else {
        31
    }
}

/// The civil date `days` whole days after 1970-01-01: the unique valid date
/// whose day count is `days`.
pub fn civil_from_days(days: u64) -> (r: (u64, u64, u64))
    requires
        days < 200_000_000,
    ensures
        1970 <= r.0,
        1 <= r.1 <= 12,
        1 <= r.2 <= days_in_month(r.0 as int, r.1 as int),
        civil_to_days(r.0 as int, r.1 as int, r.2 as int) == days as int,
{
    let mut y: u64 = 1970;
    let mut rem: u64 = days;
    loop
        invariant
            1970 <= y,
            days < 200_000_000,
            days_before_year(y as int) + rem as int == days as int,
            y as int - 1970 <= days as int - rem as int,
        ensures
            rem as int == days as int - days_before_year(y as int),
            (rem as int) < days_in_year(y as int),
            1970 <= y,
            y as int - 1970 <= days as int,
        decreases rem,
    {
        let diy = days_in_year_exec(y);
        if rem < diy {
            break ;
        }
        rem = rem - diy;
        y = y + 1;
    }
    let ghost rem0 = rem as int;
    let mut m: u64 = 1;
    loop
        invariant
            1 <= m <= 12,
            rem0 < days_in_year(y as int),
            days_before_month(y as int, m as int) + rem as int == rem0,
            rem <= rem0,
            rem0 < 400,
        ensures
            1 <= m <= 12,
            days_before_month(y as int, m as int) + rem as int == rem0,
            (rem as int) < days_in_month(y as int, m as int),
        decreases 12 - m,
    {
        let dim = days_in_month_exec(y, m);
        if rem < dim {
            break ;
        }
        proof {
            lemma_months_sum(y as int);
            if m == 12 {
                assert(days_before_month(y as int, 13) == days_before_month(y as int, 12)
                    + days_in_month(y as int, 12));
                assert(false);
            }
        }
        rem = rem - dim;
        m = m + 1;
    }
    (y, m, rem + 1)
}

/// Month day-counts are nonnegative and grow with the month.
proof fn lemma_dbm_mono(y: int, a: int, b: int)
    requires
        0 <= a <= b,
    ensures
        days_before_month(y, a) <= days_before_month(y, b),
    decreases b - a,
{
    if a < b {
        lemma_dbm_mono(y, a, b - 1);
    }
}

/// A valid month and day stay inside the year.
proof fn lemma_day_in_year(y: int, m: int, d: int)
    requires
        1 <= m <= 12,
        1 <= d <= days_in_month(y, m),
    ensures
        0 <= days_before_month(y, m) + d - 1,
        days_before_month(y, m) + d - 1 < days_in_year(y),
{
    lemma_dbm_mono(y, 0, m);
    lemma_dbm_mono(y, m + 1, 13);
    lemma_months_sum(y);
    assert(days_before_month(y, m + 1) == days_before_month(y, m) + days_in_month(y, m));
}

/// Year day-counts grow strictly: a later year starts after the whole of an
/// earlier one.
proof fn lemma_dby_mono(a: int, b: int)
    requires
        1970 <= a < b,
    ensures
        days_before_year(a) + days_in_year(a) <= days_before_year(b),
    decreases b - a,
{
    if a + 1 < b {
        lemma_dby_mono(a + 1, b);
    }
}

/// The civil calendar never assigns one day count to two valid dates.
proof fn lemma_civil_to_days_injective(y1: int, m1: int, d1: int, y2: int, m2: int, d2: int)
    requires
        1970 <= y1,
        1 <= m1 <= 12,
        1 <= d1 <= days_in_month(y1, m1),
        1970 <= y2,
        1 <= m2 <= 12,
        1 <= d2 <= days_in_month(y2, m2),
        civil_to_days(y1, m1, d1) == civil_to_days(y2, m2, d2),
    ensures
        y1 == y2,
        m1 == m2,
        d1 == d2,
{
    lemma_day_in_year(y1, m1, d1);
    lemma_day_in_year(y2, m2, d2);
    if y1 < y2 {
        lemma_dby_mono(y1, y2);
        assert(false);
    }
    if y2 < y1 {
        lemma_dby_mono(y2, y1);
        assert(false);
    }
    if m1 < m2 {
        lemma_months_sum(y1);
        lemma_dbm_mono(y1, m1 + 1, m2);
        assert(days_before_month(y1, m1 + 1) == days_before_month(y1, m1) + days_in_month(
            y1,
            m1,
        ));
        assert(false);
    }
    if m2 < m1 {
        lemma_months_sum(y1);
        lemma_dbm_mono(y1, m2 + 1, m1);
        assert(days_before_month(y1, m2 + 1) == days_before_month(y1, m2) + days_in_month(
            y1,
            m2,
        ));
        assert(false);
    }
}

/// An instant has exactly one valid civil reading: the part-tuples of
/// `stamp_parts_ok` are unique, so a stamp or date built from any valid
/// tuple for an instant is the stamp of that instant.
pub proof fn lemma_stamp_parts_unique(
    ts: int,
    p1: (int, int, int, int, int, int),
    p2: (int, int, int, int, int, int),
)
    requires
        stamp_parts_ok(ts, p1),
        stamp_parts_ok(ts, p2),
    ensures
        p1 == p2,
{
    let n1 = civil_to_days(p1.0, p1.1, p1.2);
    let n2 = civil_to_days(p2.0, p2.1, p2.2);
    let s1 = 3600 * p1.3 + 60 * p1.4 + p1.5;
    let s2 = 3600 * p2.3 + 60 * p2.4 + p2.5;
    assert(0 <= s1 < 86400);
    assert(0 <= s2 < 86400);
    assert(86400 * n1 + s1 == 86400 * n2 + s2);
    assert(86400 * (n1 - n2) == s2 - s1) by (nonlinear_arith)
        requires
            86400 * n1 + s1 == 86400 * n2 + s2,
    ;
    assert(n1 == n2) by (nonlinear_arith)
        requires
            86400 * (n1 - n2) == s2 - s1,
            -86400 < s2 - s1 < 86400,
    ;
    assert(3600 * (p1.3 - p2.3) == (60 * p2.4 + p2.5) - (60 * p1.4 + p1.5)) by (nonlinear_arith)
        requires
            s1 == s2,
            s1 == 3600 * p1.3 + 60 * p1.4 + p1.5,
            s2 == 3600 * p2.3 + 60 * p2.4 + p2.5,
    ;
    assert(p1.3 == p2.3) by (nonlinear_arith)
        requires
            3600 * (p1.3 - p2.3) == (60 * p2.4 + p2.5) - (60 * p1.4 + p1.5),
            0 <= 60 * p1.4 + p1.5 < 3600,
            0 <= 60 * p2.4 + p2.5 < 3600,
    ;
    assert(60 * (p1.4 - p2.4) == p2.5 - p1.5) by (nonlinear_arith)
        requires
            60 * p1.4 + p1.5 == 60 * p2.4 + p2.5,
    ;
    assert(p1.4 == p2.4 && p1.5 == p2.5) by (nonlinear_arith)
        requires
            60 * (p1.4 - p2.4) == p2.5 - p1.5,
            0 <= p1.5 < 60,
            0 <= p2.5 < 60,
    ;
    lemma_civil_to_days_injective(p1.0, p1.1, p1.2, p2.0, p2.1, p2.2);
}

/// Whether the six fields are a valid civil date and time of day whose Unix
/// second count is `ts`.
pub open spec fn stamp_parts_ok(ts: int, p: (int, int, int, int, int, int)) -> bool {
    &&& 1970 <= p.0
    &&& 1 <= p.1 <= 12
    &&& 1 <= p.2 <= days_in_month(p.0, p.1)
    &&& 0 <= p.3 < 24
    &&& 0 <= p.4 < 60
    &&& 0 <= p.5 < 60
    &&& 86400 * civil_to_days(p.0, p.1, p.2) + 3600 * p.3 + 60 * p.4 + p.5 == ts
}

/// The civil date and time of day of a nonnegative Unix instant.
pub fn civil_from_unix(ts: i64) -> (r: (u64, u64, u64, u64, u64, u64))
    requires
        0 <= ts < 17_000_000_000_000,
    ensures
        stamp_parts_ok(
            ts as int,
            (r.0 as int, r.1 as int, r.2 as int, r.3 as int, r.4 as int, r.5 as int),
        ),
{
    let t = ts as u64;
    let days = t / 86400;
    let sec = t % 86400;
    let (y, mo, d) = civil_from_days(days);
    let h = sec / 3600;
    let r1 = sec % 3600;
    let mi = r1 / 60;
    let s = r1 % 60;
    proof {
        assert(t as int == 86400 * (t as int / 86400) + t as int % 86400);
        assert(sec as int == 3600 * (sec as int / 3600) + sec as int % 3600);
        assert(r1 as int == 60 * (r1 as int / 60) + r1 as int % 60);
    }
    (y, mo, d, h, mi, s)
}

/// `YYYYMMDDHHMMSS`, each field zero-padded.
pub open spec fn stamp_seq(p: (int, int, int, int, int, int)) -> Seq<char> {
    padded_digits(p.0, 4) + padded_digits(p.1, 2) + padded_digits(p.2, 2) + padded_digits(p.3, 2)
        + padded_digits(p.4, 2) + padded_digits(p.5, 2)
}

/// `YYYY-MM-DD`, each field zero-padded.
pub open spec fn date_seq(p: (int, int, int)) -> Seq<char> {
    padded_digits(p.0, 4) + seq!['-'] + padded_digits(p.1, 2) + seq!['-'] + padded_digits(p.2, 2)
}

/// The timestamped name of a backup directory: the instant's civil date and
/// time of day as one `YYYYMMDDHHMMSS` word.
pub fn timestamp_dir_name_at(ts: i64) -> (r: String)
    requires
        0 <= ts < 17_000_000_000_000,
    ensures
        exists|p: (int, int, int, int, int, int)|
            #[trigger] stamp_parts_ok(ts as int, p) && r@ == stamp_seq(p),
{
    let (y, mo, d, h, mi, s) = civil_from_unix(ts);
    let mut r = u64_to_padded_string(y, 4);
    r.append(u64_to_padded_string(mo, 2).as_str());
    r.append(u64_to_padded_string(d, 2).as_str());
    r.append(u64_to_padded_string(h, 2).as_str());
    r.append(u64_to_padded_string(mi, 2).as_str());
    r.append(u64_to_padded_string(s, 2).as_str());
    proof {
        let ghost p = (y as int, mo as int, d as int, h as int, mi as int, s as int);
        assert(stamp_parts_ok(ts as int, p));
        assert(r@ =~= stamp_seq(p));
    }
    r
}

/// The instant's civil date as `YYYY-MM-DD`.
pub fn date_str_at(ts: i64) -> (r: String)
    requires
        0 <= ts < 17_000_000_000_000,
    ensures
        exists|p: (int, int, int, int, int, int)|
            #[trigger] stamp_parts_ok(ts as int, p) && r@ == date_seq((p.0, p.1, p.2)),
{
    let (y, mo, d, h, mi, s) = civil_from_unix(ts);
    let mut r = u64_to_padded_string(y, 4);
    r.append("-");
    r.append(u64_to_padded_string(mo, 2).as_str());
    r.append("-");
    r.append(u64_to_padded_string(d, 2).as_str());
    proof {
        reveal_strlit("-");
        let ghost p = (y as int, mo as int, d as int, h as int, mi as int, s as int);
        assert(stamp_parts_ok(ts as int, p));
        assert(r@ =~= date_seq((p.0, p.1, p.2)));
    }
    r
}

/// Relies on chrono's `Utc::now` and `DateTime::timestamp`: the current
/// time as Unix seconds. chrono documents `DateTime<Utc>` as confined to
/// `MIN_UTC..=MAX_UTC` (years -262144 to 262142), so the magnitude stays
/// far below the stated bound.
#[verifier::external_body]
pub(crate) fn now_unix() -> (r: i64)
    ensures
        -10_000_000_000_000 < r < 10_000_000_000_000,
{
    chrono::Utc::now().timestamp()
}

/// The timestamped name of a backup snapshot made now. A clock before the
/// epoch is folded to the epoch, keeping the name well-formed.
pub fn timestamp_dir_name() -> (r: String)
    ensures
        exists|ts: int, p: (int, int, int, int, int, int)|
            0 <= ts && #[trigger] stamp_parts_ok(ts, p) && r@ == stamp_seq(p),
{
    let now = now_unix();
    let ts: i64 = if now >= 0 {
        now
    } else {
        0
    };
    timestamp_dir_name_at(ts)
}

/// Whole days from `now` to `not_after`, rounded toward minus infinity;
/// negative once `not_after` lies in the past.
pub fn days_between(not_after: i64, now: i64) -> (r: i64)
    requires
        -400_000_000_000_000 <= not_after <= 400_000_000_000_000,
        -400_000_000_000_000 <= now <= 400_000_000_000_000,
    ensures
        r as int == (not_after - now) / 86400,
{
    if not_after >= now {
        let diff = (not_after - now) as u64;
        let q = diff / 86400;
        proof {
            assert(diff as int == 86400 * (diff as int / 86400) + diff as int % 86400);
            lemma_fundamental_div_mod_converse(
                not_after as int - now as int,
                86400,
                q as int,
                diff as int % 86400,
            );
        }
        q as i64
    } else {
        let diff = (now - not_after) as u64;
        let q = diff / 86400;
        let rem = diff % 86400;
        proof {
            assert(diff as int == 86400 * (diff as int / 86400) + diff as int % 86400);
        }
        if rem == 0 {
            proof {
                lemma_fundamental_div_mod_converse(
                    not_after as int - now as int,
                    86400,
                    -(q as int),
                    0,
                );
            }
            -(q as i64)
        } else {
            proof {
                lemma_fundamental_div_mod_converse(
                    not_after as int - now as int,
                    86400,
                    -(q as int) - 1,
                    86400 - rem as int,
                );
            }
            -(q as i64) - 1
        }
    }
}

} // verus!
