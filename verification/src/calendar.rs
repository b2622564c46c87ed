//! The calendar: day counts to dates.
use vstd::prelude::*;

verus! {

pub open spec fn is_leap(y: nat) -> bool {
    y % 4 == 0 && (y % 100 != 0 || y % 400 == 0)
}

pub open spec fn year_days(y: nat) -> nat {
    if is_leap(y) {
        366
    } else {
        365
    }
}

pub open spec fn month_days(y: nat, m: nat) -> nat {
    if m == 2 {
        if is_leap(y) {
            29
        } else {
            28
        }
    } else if m == 4 || m == 6 || m == 9 || m == 11 {
        30
    } else {
        31
    }
}

/// Days from 0000-01-01 to the first of January of year `y`.
pub open spec fn days_before_year(y: nat) -> nat
    decreases y,
{
    if y == 0 {
        0
    } else {
        days_before_year((y - 1) as nat) + year_days((y - 1) as nat)
    }
}

/// Days from the first of January to the first of month `m`.
pub open spec fn days_before_month(y: nat, m: nat) -> nat
    decreases m,
{
    if m <= 1 {
        0
    } else {
        days_before_month(y, (m - 1) as nat) + month_days(y, (m - 1) as nat)
    }
}

pub open spec fn valid_date(y: nat, m: nat, d: nat) -> bool {
    1 <= m <= 12 && 1 <= d <= month_days(y, m)
}

/// Days from 0000-01-01 to the date.
pub open spec fn day_number(y: nat, m: nat, d: nat) -> int {
    days_before_year(y) + days_before_month(y, m) + d - 1
}

/// The day number of 1970-01-01.
pub const EPOCH_DAY: u64 = 719_528;

/// Days before a year, in closed form.
proof fn lemma_days_before_year(y: nat)
    ensures
        days_before_year(y) == 365 * y + (y + 3) / 4 - (y + 99) / 100 + (y + 399) / 400,
    decreases y,
{
    if y > 0 {
        let p = (y - 1) as nat;
        lemma_days_before_year(p);
        lemma_step(p, 4);
        lemma_step(p, 100);
        lemma_step(p, 400);
        lemma_multiples(p);
        assert((y + 3) / 4 == (p + 4) / 4);
        assert((y + 99) / 100 == (p + 100) / 100);
        assert((y + 399) / 400 == (p + 400) / 400);
    }
}

/// Rounding up to a multiple counts one more behind each multiple.
proof fn lemma_step(p: nat, k: nat)
    requires
        k == 4 || k == 100 || k == 400,
    ensures
        (p + k) / k == (p + k - 1) / (k as int) + if p % k == 0 {
            1int
        } else {
            0
        },
{
}

proof fn lemma_multiples(p: nat)
    ensures
        p % 400 == 0 ==> p % 100 == 0,
        p % 100 == 0 ==> p % 4 == 0,
{
}

/// Days before the first of March, and the months that follow it.
proof fn lemma_months(y: nat)
    ensures
        days_before_month(y, 1) == 0,
        days_before_month(y, 2) == 31,
        days_before_month(y, 3) == 59 + if is_leap(y) {
            1int
        } else {
            0
        },
        forall|m: nat|
            3 <= m <= 12 ==> #[trigger] days_before_month(y, m) == days_before_month(y, 3)
                + march_days(m),
{
    reveal_with_fuel(days_before_month, 13);
    assert forall|m: nat| 3 <= m <= 12 implies #[trigger] days_before_month(y, m)
        == days_before_month(y, 3) + march_days(m) by {
        assert(m == 3 || m == 4 || m == 5 || m == 6 || m == 7 || m == 8 || m == 9 || m == 10 || m
            == 11 || m == 12);
    }
}

/// Days from the first of March to the first of month `m`.
spec fn march_days(m: nat) -> int {
    if m == 3 {
        0
    } else if m == 4 {
        31
    } else if m == 5 {
        61
    } else if m == 6 {
        92
    } else if m == 7 {
        122
    } else if m == 8 {
        153
    } else if m == 9 {
        184
    } else if m == 10 {
        214
    } else if m == 11 {
        245
    } else {
        275
    }
}

/// Days from 0000-03-01 to the first of March of year `y`.
spec fn march_start(y: nat) -> int {
    365 * y + y / 4 - y / 100 + y / 400
}

proof fn lemma_march_start(y: nat)
    ensures
        days_before_year(y) + days_before_month(y, 3) == march_start(y) + 60,
        days_before_year(y + 1) == march_start(y) + 60 + 306,
{
    lemma_days_before_year(y);
    lemma_days_before_year(y + 1);
    lemma_months(y);
}

/// The year that begins on the first of March, and the day in it, for a count
/// of days from 0000-03-01.
fn march_year(n: u64) -> (r: (u64, u64))
    requires
        n <= 0x2_0000_0000_0000,
    ensures
        march_start(r.0 as nat) + r.1 == n,
        r.1 <= 365,
        r.1 == 365 ==> is_leap((r.0 + 1) as nat),
        r.0 <= n,
{
    let era: u64 = n / 146_097;
    let doe: u64 = n % 146_097;
    let c: u64 = if doe / 36_524 > 3 {
        3
    } else {
        doe / 36_524
    };
    let doc: u64 = doe - 36_524 * c;
    let q: u64 = doc / 1_461;
    let doq: u64 = doc - 1_461 * q;
    let y: u64 = if doq / 365 > 3 {
        3
    } else {
        doq / 365
    };
    let doy: u64 = doq - 365 * y;
    let year: u64 = 400 * era + 100 * c + 4 * q + y;
    proof {
        assert(q <= 24);
        let yoe = 100 * c + 4 * q + y;
        assert(yoe / 4 == 25 * c + q);
        assert(4 * q + y < 100);
        assert(yoe / 100 == c as int);
        assert(year as int / 4 == 100 * era + yoe / 4);
        assert(year as int / 100 == 4 * era + yoe / 100);
        assert(yoe < 400);
        assert(year as int / 400 == era as int);
        assert(march_start(year as nat) == 146_097 * era + 36_524 * c + 1_461 * q + 365 * y);
        if doy == 365 {
            assert(doq == 1460);
            assert(y == 3);
            if q == 24 {
                assert(c == 3);
                assert(year + 1 == 400 * (era + 1));
            } else {
                assert(year + 1 == 400 * era + 100 * c + 4 * (q + 1));
                assert((year + 1) % 4 == 0);
                assert((year + 1) % 100 == 4 * (q + 1));
            }
        }
    }
    (year, doy)
}

/// The date that is `z` days after 1970-01-01.
pub fn civil_from_days(z: u64) -> (r: (u64, u64, u64))
    requires
        z <= 0x1_0000_0000_0000,
    ensures
        valid_date(r.0 as nat, r.1 as nat, r.2 as nat),
        day_number(r.0 as nat, r.1 as nat, r.2 as nat) == z + EPOCH_DAY,
{
    let (y, doy) = march_year(z + 719_468);
    proof {
        lemma_march_start(y as nat);
        lemma_months(y as nat);
        lemma_months((y + 1) as nat);
        assert(days_before_month(y as nat, 12) == days_before_month(y as nat, 3) + 275);
        assert(days_before_month(y as nat, 11) == days_before_month(y as nat, 3) + 245);
        assert(days_before_month(y as nat, 10) == days_before_month(y as nat, 3) + 214);
        assert(days_before_month(y as nat, 9) == days_before_month(y as nat, 3) + 184);
        assert(days_before_month(y as nat, 8) == days_before_month(y as nat, 3) + 153);
        assert(days_before_month(y as nat, 7) == days_before_month(y as nat, 3) + 122);
        assert(days_before_month(y as nat, 6) == days_before_month(y as nat, 3) + 92);
        assert(days_before_month(y as nat, 5) == days_before_month(y as nat, 3) + 61);
        assert(days_before_month(y as nat, 4) == days_before_month(y as nat, 3) + 31);
    }
    if doy >= 337 {
        (y + 1, 2, doy - 337 + 1)
    } else if doy >= 306 {
        (y + 1, 1, doy - 306 + 1)
    } else if doy >= 275 {
        (y, 12, doy - 275 + 1)
    } else if doy >= 245 {
        (y, 11, doy - 245 + 1)
    } else if doy >= 214 {
        (y, 10, doy - 214 + 1)
    } else if doy >= 184 {
        (y, 9, doy - 184 + 1)
    } else if doy >= 153 {
        (y, 8, doy - 153 + 1)
    } else if doy >= 122 {
        (y, 7, doy - 122 + 1)
    } else if doy >= 92 {
        (y, 6, doy - 92 + 1)
    } else if doy >= 61 {
        (y, 5, doy - 61 + 1)
    } else if doy >= 31 {
        (y, 4, doy - 31 + 1)
    } else {
        (y, 3, doy + 1)
    }
}

/// A month ends within its year, and a later month begins after it.
proof fn lemma_within_year(y: nat, m: nat, d: nat, k: nat)
    requires
        valid_date(y, m, d),
        m < k <= 13,
    ensures
        days_before_month(y, m) + d <= days_before_month(y, k),
        days_before_month(y, 13) == year_days(y),
    decreases k,
{
    reveal_with_fuel(days_before_month, 14);
    if k > m + 1 {
        lemma_within_year(y, m, d, (k - 1) as nat);
    }
}

proof fn lemma_years_grow(a: nat, b: nat)
    requires
        a < b,
    ensures
        days_before_year(a) + year_days(a) <= days_before_year(b),
    decreases b,
{
    if b > a + 1 {
        lemma_years_grow(a, (b - 1) as nat);
    }
}

/// Two dates with the same day number are the same date.
pub proof fn law_a_day_has_one_date(y: nat, m: nat, d: nat, y2: nat, m2: nat, d2: nat)
    requires
        valid_date(y, m, d),
        valid_date(y2, m2, d2),
        day_number(y, m, d) == day_number(y2, m2, d2),
    ensures
        y == y2,
        m == m2,
        d == d2,
{
    lemma_within_year(y, m, d, 13);
    lemma_within_year(y2, m2, d2, 13);
    if y < y2 {
        lemma_years_grow(y, y2);
    }
    if y2 < y {
        lemma_years_grow(y2, y);
    }
    if m < m2 {
        lemma_within_year(y, m, d, m2);
    }
    if m2 < m {
        lemma_within_year(y2, m2, d2, m);
    }
}

/// The date that is `z` days after 1970-01-01: year, month, day.
pub open spec fn date_at(z: nat) -> (nat, nat, nat) {
    choose|t: (nat, nat, nat)|
        #[trigger] valid_date(t.0, t.1, t.2) && day_number(t.0, t.1, t.2) == z + EPOCH_DAY
}

/// The date that is `z` days after 1970-01-01.
pub fn date_of(z: u64) -> (r: (u64, u64, u64))
    requires
        z <= 0x1_0000_0000_0000,
    ensures
        (r.0 as nat, r.1 as nat, r.2 as nat) == date_at(z as nat),
        valid_date(r.0 as nat, r.1 as nat, r.2 as nat),
{
    let r: (u64, u64, u64) = civil_from_days(z);
    proof {
        let t = (r.0 as nat, r.1 as nat, r.2 as nat);
        assert(valid_date(t.0, t.1, t.2) && day_number(t.0, t.1, t.2) == z + EPOCH_DAY);
        let u = date_at(z as nat);
        law_a_day_has_one_date(t.0, t.1, t.2, u.0, u.1, u.2);
    }
    r
}

/// Every fourth year has a day more, but of four years that end a century only
/// one: four hundred years are always as many days.
pub proof fn law_four_centuries_are_always_as_long(y: nat)
    ensures
        days_before_year(y + 400) == days_before_year(y) + 146_097,
        y % 4 != 0 ==> year_days(y) == 365,
        y % 400 == 0 ==> year_days(y) == 366,
        y % 100 == 0 && y % 400 != 0 ==> year_days(y) == 365,
        y % 4 == 0 && y % 100 != 0 ==> year_days(y) == 366,
        days_before_month(y, 12) + 31 == year_days(y),
{
    lemma_days_before_year(y);
    lemma_days_before_year(y + 400);
    reveal_with_fuel(days_before_month, 13);
}

/// The count of days begins with the first of January 1970, and goes on by one
/// from a day to the next, over the ends of months and years.
pub proof fn law_days_follow_each_other(y: nat, m: nat, d: nat)
    requires
        valid_date(y, m, d),
    ensures
        day_number(1970, 1, 1) == EPOCH_DAY,
        d < month_days(y, m) ==> day_number(y, m, d + 1) == day_number(y, m, d) + 1,
        d == month_days(y, m) && m < 12 ==> day_number(y, m + 1, 1) == day_number(y, m, d) + 1,
        d == month_days(y, m) && m == 12 ==> day_number(y + 1, 1, 1) == day_number(y, m, d) + 1,
{
    lemma_days_before_year(1970);
    law_four_centuries_are_always_as_long(y);
}

} // verus!
