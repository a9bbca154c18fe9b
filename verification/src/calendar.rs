//! The proleptic Gregorian calendar, in UTC.

use crate::text::{dec, dec_padded, digit, zero_pad};
use vstd::arithmetic::div_mod::{
    lemma_fundamental_div_mod, lemma_fundamental_div_mod_converse, lemma_mod_bound,
};
use vstd::prelude::*;

verus! {

pub open spec fn is_leap(y: int) -> bool {
    y % 4 == 0 && (y % 100 != 0 || y % 400 == 0)
}

/// The number of leap years from year 1 to year `y`.
pub open spec fn leaps(y: int) -> int {
    y / 4 - y / 100 + y / 400
}

/// The days of the year `y` that lie before its month `m`.
pub open spec fn days_before_month(y: int, m: int) -> int {
    let feb: int = if is_leap(y) {
        29
    } else {
        28
    };
    if m == 1 {
        0
    } else if m == 2 {
        31
    } else if m == 3 {
        31 + feb
    } else if m == 4 {
        62 + feb
    } else if m == 5 {
        92 + feb
    } else if m == 6 {
        123 + feb
    } else if m == 7 {
        153 + feb
    } else if m == 8 {
        184 + feb
    } else if m == 9 {
        215 + feb
    } else if m == 10 {
        245 + feb
    } else if m == 11 {
        276 + feb
    } else if m == 12 {
        306 + feb
    } else {
        337 + feb
    }
}

/// A calendar date.
pub struct Date {
    pub year: int,
    pub month: int,
    pub day: int,
}

/// Whether `d` is a date of the calendar, from year 1 on.
pub open spec fn valid_date(d: Date) -> bool {
    &&& 1 <= d.year
    &&& 1 <= d.month <= 12
    &&& 1 <= d.day <= days_before_month(d.year, d.month + 1) - days_before_month(d.year, d.month)
}

/// The days from 1970-01-01 to `d`.
pub open spec fn day_number(d: Date) -> int {
    365 * (d.year - 1) + leaps(d.year - 1) + days_before_month(d.year, d.month) + d.day - 1 - 719162
}

/// The date of the day `n` days after 1970-01-01.
pub open spec fn date_of(n: int) -> Date {
    choose|d: Date| valid_date(d) && day_number(d) == n
}

/// Two digits of `n`.
pub open spec fn two(n: int) -> Seq<char> {
    zero_pad(dec(n), 2)
}

/// `YYYYmmdd-HHMMSS` of the instant `secs` seconds after the epoch.
pub open spec fn utc_text(secs: int) -> Seq<char> {
    let d = date_of(secs / 86400);
    let s = secs % 86400;
    zero_pad(dec(d.year), 4) + two(d.month) + two(d.day) + "-"@ + two(s / 3600) + two(
        (s % 3600) / 60,
    ) + two(s % 60)
}

/// The days of a year that starts in March, before its month `mp` (March is 0).
spec fn march_days(mp: int) -> int {
    (153 * mp + 2) / 5
}

/// A later date of the calendar has a greater day number.
proof fn lemma_day_number_year(a: Date, b: Date)
    requires
        valid_date(a),
        valid_date(b),
        a.year < b.year,
    ensures
        day_number(a) < day_number(b),
{
    assert(leaps(b.year - 1) >= leaps(a.year)) by {
        lemma_leaps_monotone(a.year, b.year - 1);
    }
    assert(leaps(a.year) == leaps(a.year - 1) + if is_leap(a.year) {
        1int
    } else {
        0int
    }) by {
        lemma_leaps_step(a.year);
    }
}

/// A quotient grows by one exactly at the multiples of the divisor.
proof fn lemma_quotient_step(y: int, k: int)
    requires
        1 <= y,
        1 < k,
    ensures
        y / k == (y - 1) / k + if y % k == 0 {
            1int
        } else {
            0int
        },
{
    lemma_fundamental_div_mod(y, k);
    lemma_mod_bound(y, k);
    let q = y / k;
    if y % k == 0 {
        assert((q - 1) * k == k * q - k) by (nonlinear_arith);
        lemma_fundamental_div_mod_converse(y - 1, k, q - 1, k - 1);
    } else {
        assert(q * k == k * q) by (nonlinear_arith);
        lemma_fundamental_div_mod_converse(y - 1, k, q, y % k - 1);
    }
}

proof fn lemma_leaps_step(y: int)
    requires
        1 <= y,
    ensures
        leaps(y) == leaps(y - 1) + if is_leap(y) {
            1int
        } else {
            0int
        },
{
    lemma_quotient_step(y, 4);
    lemma_quotient_step(y, 100);
    lemma_quotient_step(y, 400);
    assert(y % 100 == 0 ==> y % 4 == 0);
    assert(y % 400 == 0 ==> y % 100 == 0);
}

proof fn lemma_leaps_monotone(a: int, b: int)
    requires
        0 <= a <= b,
    ensures
        leaps(a) <= leaps(b),
    decreases b - a,
{
    if a < b {
        lemma_leaps_monotone(a, b - 1);
        lemma_leaps_step(b);
    }
}

/// Day numbers tell dates apart.
pub proof fn lemma_day_number_injective(a: Date, b: Date)
    requires
        valid_date(a),
        valid_date(b),
        day_number(a) == day_number(b),
    ensures
        a == b,
{
    if a.year < b.year {
        lemma_day_number_year(a, b);
    } else if b.year < a.year {
        lemma_day_number_year(b, a);
    }
}

/// The date of a day is the one that has its number.
pub proof fn lemma_date_of(d: Date)
    requires
        valid_date(d),
    ensures
        date_of(day_number(d)) == d,
{
    let n = day_number(d);
    assert(valid_date(d) && day_number(d) == n);
    let e = date_of(n);
    assert(valid_date(e) && day_number(e) == n);
    lemma_day_number_injective(d, e);
}

/// Where a day lies in its 400-year era, which starts on the first of March.
#[verifier::spinoff_prover]
#[verifier::rlimit(60)]
proof fn lemma_year_of_era(doe: int, yoe: int)
    requires
        0 <= doe <= 146096,
        yoe == (doe - doe / 1460 + doe / 36524 - doe / 146096) / 365,
    ensures
        0 <= yoe <= 399,
        365 * yoe + yoe / 4 - yoe / 100 <= doe,
        doe < 365 * (yoe + 1) + (yoe + 1) / 4 - (yoe + 1) / 100 + (yoe + 1) / 400,
{
    let c = doe / 36524;
    assert(0 <= c <= 4);
    let q = doe / 1460;
    assert(0 <= q <= 100);
    assert(doe / 146096 == if doe == 146096 {
        1int
    } else {
        0int
    });
}

/// The date of a day that lies `doy` days into the March-based year `y`, as the
/// algorithm finds it from the month `mp` counted from March.
proof fn lemma_civil(y: int, doy: int, mp: int, d: int, m: int, year: int)
    requires
        1 <= y,
        0 <= doy < 365 + if is_leap(y + 1) {
            1int
        } else {
            0int
        },
        mp == (5 * doy + 2) / 153,
        d == doy - march_days(mp) + 1,
        m == if mp < 10 {
            mp + 3
        } else {
            mp - 9
        },
        year == if m <= 2 {
            y + 1
        } else {
            y
        },
    ensures
        0 <= mp <= 11,
        1 <= d <= 31,
        1 <= m <= 12,
        valid_date(Date { year, month: m, day: d }),
        day_number(Date { year, month: m, day: d }) == 365 * y + leaps(y) + doy - 719468,
{
    lemma_leaps_step(y);
}

/// Whether `a` comes before `b` in the order of strings, at a character in which
/// they differ.
pub open spec fn sorts_before(a: Seq<char>, b: Seq<char>) -> bool {
    exists|k: int|
        0 <= k < a.len() && k < b.len() && a.take(k) == b.take(k) && (#[trigger] a[k] as u32) < (
        b[k] as u32)
}

proof fn lemma_sorts_at(a: Seq<char>, b: Seq<char>, k: int)
    requires
        0 <= k < a.len(),
        k < b.len(),
        forall|j: int| 0 <= j < k ==> a[j] == b[j],
        (a[k] as u32) < (b[k] as u32),
    ensures
        sorts_before(a, b),
{
    assert(a.take(k) =~= b.take(k));
}

proof fn lemma_sorts_within(p: Seq<char>, x: Seq<char>, y: Seq<char>, q: Seq<char>, r: Seq<char>)
    requires
        sorts_before(x, y),
    ensures
        sorts_before(p + x + q, p + y + r),
{
    let k = choose|k: int|
        0 <= k < x.len() && k < y.len() && x.take(k) == y.take(k) && (#[trigger] x[k] as u32) < (
        y[k] as u32);
    let a = p + x + q;
    let b = p + y + r;
    assert forall|j: int| 0 <= j < p.len() + k implies a[j] == b[j] by {
        if j >= p.len() {
            assert(x.take(k)[j - p.len()] == y.take(k)[j - p.len()]);
        }
    }
    lemma_sorts_at(a, b, p.len() + k);
}

proof fn lemma_two(n: int)
    requires
        0 <= n < 100,
    ensures
        two(n) == seq![digit(n / 10), digit(n % 10)],
{
    reveal_with_fuel(dec, 3);
    assert(two(n) =~= seq![digit(n / 10), digit(n % 10)]);
}

proof fn lemma_two_sorts(a: int, b: int)
    requires
        0 <= a < b < 100,
    ensures
        sorts_before(two(a), two(b)),
{
    lemma_two(a);
    lemma_two(b);
    if a / 10 < b / 10 {
        lemma_sorts_at(two(a), two(b), 0);
    } else {
        lemma_sorts_at(two(a), two(b), 1);
    }
}

proof fn lemma_four(n: int)
    requires
        0 <= n < 10000,
    ensures
        zero_pad(dec(n), 4) == two(n / 100) + two(n % 100),
{
    lemma_two(n / 100);
    lemma_two(n % 100);
    reveal_with_fuel(dec, 5);
    assert(n / 10 / 10 == n / 100);
    assert(n / 10 % 10 == n % 100 / 10);
    assert(n % 10 == n % 100 % 10);
    assert(n / 10 / 10 / 10 == n / 100 / 10);
    assert(n / 10 / 10 % 10 == n / 100 % 10);
    assert(zero_pad(dec(n), 4) =~= two(n / 100) + two(n % 100));
}

proof fn lemma_four_sorts(a: int, b: int)
    requires
        0 <= a < b < 10000,
    ensures
        sorts_before(zero_pad(dec(a), 4), zero_pad(dec(b), 4)),
{
    lemma_four(a);
    lemma_four(b);
    let e = Seq::<char>::empty();
    if a / 100 < b / 100 {
        lemma_two_sorts(a / 100, b / 100);
        lemma_sorts_within(e, two(a / 100), two(b / 100), two(a % 100), two(b % 100));
        assert(e + two(a / 100) + two(a % 100) =~= two(a / 100) + two(a % 100));
        assert(e + two(b / 100) + two(b % 100) =~= two(b / 100) + two(b % 100));
    } else {
        lemma_two_sorts(a % 100, b % 100);
        lemma_sorts_within(two(a / 100), two(a % 100), two(b % 100), e, e);
        assert(two(a / 100) + two(a % 100) + e =~= two(a / 100) + two(a % 100));
        assert(two(a / 100) + two(b % 100) + e =~= two(a / 100) + two(b % 100));
    }
}

/// Every day from the epoch on has a date.
proof fn lemma_has_date(n: int)
    requires
        0 <= n,
    ensures
        valid_date(date_of(n)),
        day_number(date_of(n)) == n,
{
    let z = n + 719468;
    let era = z / 146097;
    let doe = z % 146097;
    let yoe = (doe - doe / 1460 + doe / 36524 - doe / 146096) / 365;
    lemma_year_of_era(doe, yoe);
    let y = yoe + era * 400;
    let doy = doe - (365 * yoe + yoe / 4 - yoe / 100);
    lemma_era(yoe, era);
    lemma_era(yoe + 1, era);
    lemma_leaps_step(yoe + 1);
    let mp = (5 * doy + 2) / 153;
    let d = doy - march_days(mp) + 1;
    let m = if mp < 10 {
        mp + 3
    } else {
        mp - 9
    };
    let year = if m <= 2 {
        y + 1
    } else {
        y
    };
    lemma_civil(y, doy, mp, d, m, year);
    lemma_date_of(Date { year, month: m, day: d });
}

/// The parts of an instant's text, in order: year, month, day, hour, minute, second.
spec fn parts_text(p: Seq<Seq<char>>) -> Seq<char> {
    p[0] + p[1] + p[2] + "-"@ + p[3] + p[4] + p[5]
}

/// Texts sort by the first part in which they differ.
proof fn lemma_parts_sort(p: Seq<Seq<char>>, q: Seq<Seq<char>>, i: int)
    requires
        p.len() == 6,
        q.len() == 6,
        0 <= i < 6,
        forall|j: int| 0 <= j < i ==> p[j] == q[j],
        sorts_before(p[i], q[i]),
    ensures
        sorts_before(parts_text(p), parts_text(q)),
{
    let e = Seq::<char>::empty();
    let d = "-"@;
    let (a, b) = if i == 0 {
        (e, (p[1] + p[2] + d + p[3] + p[4] + p[5], q[1] + q[2] + d + q[3] + q[4] + q[5]))
    } else if i == 1 {
        (p[0], (p[2] + d + p[3] + p[4] + p[5], q[2] + d + q[3] + q[4] + q[5]))
    } else if i == 2 {
        (p[0] + p[1], (d + p[3] + p[4] + p[5], d + q[3] + q[4] + q[5]))
    } else if i == 3 {
        (p[0] + p[1] + p[2] + d, (p[4] + p[5], q[4] + q[5]))
    } else if i == 4 {
        (p[0] + p[1] + p[2] + d + p[3], (p[5], q[5]))
    } else {
        (p[0] + p[1] + p[2] + d + p[3] + p[4], (e, e))
    };
    lemma_sorts_within(a, p[i], q[i], b.0, b.1);
    assert(a + p[i] + b.0 =~= parts_text(p));
    assert(a + q[i] + b.1 =~= parts_text(q));
}

/// Days before the year 10000 have years of at most four digits, and later days have
/// later dates.
proof fn lemma_dates_ordered(m: int, n: int)
    requires
        0 <= m < n < 2932897,
    ensures
        ({
            let (a, b) = (date_of(m), date_of(n));
            &&& valid_date(a) && valid_date(b)
            &&& a.year <= b.year < 10000
            &&& a.year == b.year ==> a.month <= b.month
            &&& a.year == b.year && a.month == b.month ==> a.day < b.day
        }),
{
    let (a, b) = (date_of(m), date_of(n));
    lemma_has_date(m);
    lemma_has_date(n);
    assert(b.year < 10000) by {
        let first = Date { year: 10000, month: 1, day: 1 };
        assert(day_number(first) == 2932897);
        if b.year > 10000 {
            lemma_day_number_year(first, b);
        }
    }
    if a.year > b.year {
        lemma_day_number_year(b, a);
    }
}

/// The texts of two instants before the year 10000 sort in the order of the instants.
pub proof fn lemma_utc_text_sorts(a: int, b: int)
    requires
        0 <= a < b < 253402300800,
    ensures
        sorts_before(utc_text(a), utc_text(b)),
{
    let da = date_of(a / 86400);
    let db = date_of(b / 86400);
    let (sa, sb) = (a % 86400, b % 86400);
    let p = seq![
        zero_pad(dec(da.year), 4),
        two(da.month),
        two(da.day),
        two(sa / 3600),
        two((sa % 3600) / 60),
        two(sa % 60),
    ];
    let q = seq![
        zero_pad(dec(db.year), 4),
        two(db.month),
        two(db.day),
        two(sb / 3600),
        two((sb % 3600) / 60),
        two(sb % 60),
    ];
    if a / 86400 < b / 86400 {
        lemma_dates_ordered(a / 86400, b / 86400);
        if da.year < db.year {
            lemma_four_sorts(da.year, db.year);
            lemma_parts_sort(p, q, 0);
        } else if da.month < db.month {
            lemma_two_sorts(da.month, db.month);
            lemma_parts_sort(p, q, 1);
        } else {
            lemma_two_sorts(da.day, db.day);
            lemma_parts_sort(p, q, 2);
        }
    } else if sa / 3600 < sb / 3600 {
        lemma_two_sorts(sa / 3600, sb / 3600);
        lemma_parts_sort(p, q, 3);
    } else if (sa % 3600) / 60 < (sb % 3600) / 60 {
        lemma_two_sorts((sa % 3600) / 60, (sb % 3600) / 60);
        lemma_parts_sort(p, q, 4);
    } else {
        lemma_two_sorts(sa % 60, sb % 60);
        lemma_parts_sort(p, q, 5);
    }
}

/// Leap years recur after 400 years, 97 of them in each span.
proof fn lemma_era(yoe: int, era: int)
    requires
        0 <= yoe,
        0 <= era,
    ensures
        leaps(yoe + 400 * era) == leaps(yoe) + 97 * era,
        is_leap(yoe + 400 * era) == is_leap(yoe),
{
    let y = yoe + 400 * era;
    assert(y / 4 == yoe / 4 + 100 * era);
    assert(y / 100 == yoe / 100 + 4 * era);
    assert(y / 400 == yoe / 400 + era);
    assert(y % 4 == yoe % 4);
    assert(y % 100 == yoe % 100);
    assert(y % 400 == yoe % 400);
}

/// The date of the day `days` days after 1970-01-01: year, month and day.
pub fn civil_from_days(days: u64) -> (r: (u64, u64, u64))
    requires
        days <= u64::MAX / 86400,
    ensures
        valid_date(Date { year: r.0 as int, month: r.1 as int, day: r.2 as int }),
        day_number(Date { year: r.0 as int, month: r.1 as int, day: r.2 as int }) == days,
{
    let z: i64 = days as i64 + 719468;
    let era: i64 = z / 146097;
    let doe: i64 = z % 146097;
    let yoe: i64 = (doe - doe / 1460 + doe / 36524 - doe / 146096) / 365;
    proof {
        lemma_year_of_era(doe as int, yoe as int);
    }
    let y: i64 = yoe + era * 400;
    let doy: i64 = doe - (365 * yoe + yoe / 4 - yoe / 100);
    proof {
        lemma_era(yoe as int, era as int);
        lemma_era(yoe + 1, era as int);
        lemma_leaps_step(yoe + 1);
        assert(doy < 365 + if is_leap(y + 1) {
            1int
        } else {
            0int
        });
    }
    let mp: i64 = (5 * doy + 2) / 153;
    let d: i64 = doy - (153 * mp + 2) / 5 + 1;
    let m: i64 = if mp < 10 {
        mp + 3
    } else {
        mp - 9
    };
    let year: i64 = if m <= 2 {
        y + 1
    } else {
        y
    };
    proof {
        lemma_civil(y as int, doy as int, mp as int, d as int, m as int, year as int);
    }
    (year as u64, m as u64, d as u64)
}

/// `YYYYmmdd-HHMMSS` in UTC of the instant `secs` seconds after the epoch.
pub fn format_utc_datetime(secs: u64) -> (r: String)
    ensures
        r@ == utc_text(secs as int),
{
    let (year, m, d) = civil_from_days(secs / 86400);
    proof {
        lemma_date_of(Date { year: year as int, month: m as int, day: d as int });
    }
    let sod: u64 = secs % 86400;
    let mut out = dec_padded(year, 4);
    out.append(dec_padded(m, 2).as_str());
    out.append(dec_padded(d, 2).as_str());
    out.append("-");
    out.append(dec_padded(sod / 3600, 2).as_str());
    out.append(dec_padded((sod % 3600) / 60, 2).as_str());
    out.append(dec_padded(sod % 60, 2).as_str());
    out
}

} // verus!
