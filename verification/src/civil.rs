//! Proleptic Gregorian calendar dates from day counts (Howard Hinnant's
//! `civil_from_days`), and their compact and ISO-8601 renderings.
use vstd::prelude::*;

use crate::text::{push_str, push_zero_padded, string_from_chars, zero_padded};

verus! {

/// Division rounding toward zero, as Rust's integer `/` does.
pub open spec fn tdiv(a: int, b: int) -> int
    recommends
        b > 0,
{
    if a >= 0 {
        a / b
    } else {
        -((-a) / b)
    }
}

/// The civil date `(year, month, day)` of the day `days` after 1970-01-01:
/// days are counted in 400-year eras of 146097 days from 0000-03-01, years
/// start in March so that the leap day ends the year, and months are found
/// from the day of that year by the 153-days-per-5-months rule.
pub open spec fn civil_spec(days: int) -> (int, int, int) {
    let z = days + 719468;
    let era = z / 146097;
    let doe = z - era * 146097;
    let yoe = (doe - doe / 1460 + doe / 36524 - doe / 146096) / 365;
    let y = yoe + era * 400;
    let doy = doe - (365 * yoe + yoe / 4 - yoe / 100);
    let mp = tdiv(5 * doy + 2, 153);
    let d = doy - tdiv(153 * mp + 2, 5) + 1;
    let m = if mp < 10 {
        mp + 3
    } else {
        mp - 9
    };
    (
        if m <= 2 {
            y + 1
        } else {
            y
        },
        m,
        d,
    )
}

proof fn lemma_floor_div(z: int, q: int)
    requires
        z < 0,
        q == -((146096 - z) / 146097),
    ensures
        q == z / 146097,
{
    let a = 146096 - z;
    let e = z / 146097;
    vstd::arithmetic::div_mod::lemma_fundamental_div_mod(z, 146097);
    assert(z == e * 146097 + z % 146097);
    assert(0 <= z % 146097 < 146097);
    assert(a == (-e) * 146097 + (146096 - z % 146097)) by (nonlinear_arith)
        requires
            z == e * 146097 + z % 146097,
            a == 146096 - z,
    ;
    assert(0 <= 146096 - z % 146097 < 146097);
    vstd::arithmetic::div_mod::lemma_fundamental_div_mod_converse(
        a,
        146097,
        -e,
        146096 - z % 146097,
    );
}

proof fn lemma_doe_bounds(z: int)
    ensures
        0 <= z - (z / 146097) * 146097 < 146097,
        z - 146096 <= (z / 146097) * 146097 <= z,
{
    let e = z / 146097;
    vstd::arithmetic::div_mod::lemma_fundamental_div_mod(z, 146097);
    assert(z == e * 146097 + z % 146097);
}

/// The civil date of day `days` after 1970-01-01; `None` when `days + 719468`
/// does not fit in an `i128`.
pub fn civil_from_days(days: i128) -> (r: Option<(i128, i128, i128)>)
    requires
        days + 719468 >= i128::MIN + 146096,
    ensures
        match r {
            Some((y, m, d)) => days + 719468 <= i128::MAX && (y as int, m as int, d as int)
                == civil_spec(days as int),
            None => days + 719468 > i128::MAX,
        },
{
    let z = match days.checked_add(719468) {
        Some(z) => z,
        None => {
            return None;
        },
    };
    let era: i128 = if z >= 0 {
        z / 146097
    } else {
        (z - 146096) / 146097
    };
    proof {
        if z >= 0 {
            assert(era == (z as int) / 146097);
        } else {
            assert(z - 146096 < 0);
            assert(era == -((146096 - z) / 146097));
            lemma_floor_div(z as int, era as int);
        }
        lemma_doe_bounds(z as int);
    }
    let doe: i128 = z - era * 146097;
    assert(0 <= doe < 146097);
    assert(doe / 1460 <= doe) by (nonlinear_arith)
        requires
            0 <= doe,
    ;
    assert(doe / 146096 <= doe / 36524) by (nonlinear_arith)
        requires
            0 <= doe,
    ;
    let yoe: i128 = (doe - doe / 1460 + doe / 36524 - doe / 146096) / 365;
    assert(0 <= yoe <= 401) by (nonlinear_arith)
        requires
            0 <= doe < 146097,
            doe / 1460 <= doe,
            yoe == (doe - doe / 1460 + doe / 36524 - doe / 146096) / 365,
            doe / 36524 <= 4,
    ;
    proof {
        assert(era * 146097 <= z);
        assert(z <= i128::MAX);
        assert(era <= i128::MAX / 146097) by (nonlinear_arith)
            requires
                era * 146097 <= z,
                z <= i128::MAX,
        ;
        assert(era >= (i128::MIN + 146096) / 146097 - 1) by (nonlinear_arith)
            requires
                era * 146097 >= z - 146096,
                z >= i128::MIN + 146096,
        ;
    }
    let y: i128 = yoe + era * 400;
    let doy: i128 = doe - (365 * yoe + yoe / 4 - yoe / 100);
    let mp: i128 = (5 * doy + 2) / 153;
    let d: i128 = doy - (153 * mp + 2) / 5 + 1;
    let m: i128 = if mp < 10 {
        mp + 3
    } else {
        mp - 9
    };
    let year: i128 = if m <= 2 {
        y + 1
    } else {
        y
    };
    Some((year, m, d))
}

/// Splits a count of seconds since 1970-01-01T00:00:00Z into the UTC date and
/// time of day: `(year, month, day, hour, minute, second)`.
pub open spec fn civil_from_epoch_spec(seconds: int) -> (int, int, int, int, int, int) {
    let (y, m, d) = civil_spec(seconds / 86400);
    let t = seconds % 86400;
    (y, m, d, t / 3600, (t % 3600) / 60, t % 60)
}

/// Within an era, the day of the March-based year lies in 0..=365.
proof fn lemma_day_of_year_range(doe: int)
    requires
        0 <= doe < 146097,
    ensures
        ({
            let yoe = (doe - doe / 1460 + doe / 36524 - doe / 146096) / 365;
            let doy = doe - (365 * yoe + yoe / 4 - yoe / 100);
            0 <= yoe <= 399 && 0 <= doy <= 365
        }),
{
}

/// Every day count maps to a real calendar date: the month lies in 1..=12 and
/// the day in 1..=31.
pub proof fn lemma_civil_date_ranges(days: int)
    ensures
        1 <= civil_spec(days).1 <= 12,
        1 <= civil_spec(days).2 <= 31,
{
    let z = days + 719468;
    let era = z / 146097;
    let doe = z - era * 146097;
    vstd::arithmetic::div_mod::lemma_fundamental_div_mod(z, 146097);
    lemma_day_of_year_range(doe);
    let yoe = (doe - doe / 1460 + doe / 36524 - doe / 146096) / 365;
    let doy = doe - (365 * yoe + yoe / 4 - yoe / 100);
    assert(0 <= doy <= 365);
    let mp = (5 * doy + 2) / 153;
    assert(tdiv(5 * doy + 2, 153) == mp);
    assert(0 <= mp <= 11);
    assert(tdiv(153 * mp + 2, 5) == (153 * mp + 2) / 5);
    assert(1 <= doy - (153 * mp + 2) / 5 + 1 <= 31);
}

} // verus!
