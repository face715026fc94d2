use vstd::prelude::*;
use crate::json::{jobj, jv_entries, new_obj, Json, JsonV, parsed_view, sfield};
use crate::layout::{items_view, kind_value, layout_fields, read_layout, Cond, Item, Kind};
use crate::font::{load_table, out_of_bounds, spec_load};
use crate::reader::small_len;
use crate::text::{dec, dec_string, hex, hex_string,
    flag_names, flags_text, flags_text_opt, flags_string, flags_string_opt, set_flag_names, table_view};

use crate::json::text;
use crate::reader::{be_u32, u32_at};
use vstd::string::StringExecFns;

verus! {

pub open spec fn mac_style_flags() -> Seq<(u64, Seq<char>)> {
    seq![(0x1, "Bold"@), (0x2, "Italic"@), (0x4, "Underline"@), (0x8, "Outline"@), (0x10, "Shadow"@), (0x20, "Condensed"@), (0x40, "Extended"@)]
}

pub open spec fn spec_format_mac_style(raw: u16) -> Seq<char> {
    flags_text((raw & 0x007F) as nat, 4, flag_names((raw & 0x007F) as u64, mac_style_flags()), "None"@)
}

/// The macStyle bits (those the format defines) with their names.
pub fn format_mac_style(raw: u16) -> (r: String)
    ensures
        r@ == spec_format_mac_style(raw),
{
    let bits: u64 = (raw & 0x007F) as u64;
    let table: Vec<(u64, &'static str)> = vec![(0x1, "Bold"), (0x2, "Italic"), (0x4, "Underline"), (0x8, "Outline"), (0x10, "Shadow"), (0x20, "Condensed"), (0x40, "Extended")];
    assert(table_view(table@) =~= mac_style_flags());
    let names = set_flag_names(bits, &table);
    flags_string(bits, 4, &names, "None")
}

pub open spec fn head_flags() -> Seq<(u64, Seq<char>)> {
    seq![(0x1, "Baseline at y=0"@), (0x2, "LSB at x=0"@), (0x4, "Instructions may depend on point size"@), (0x8, "Force integer PPEM"@), (0x10, "Instructions may alter advance width"@), (0x800, "Lossless transformed font data"@), (0x1000, "Converted font"@), (0x2000, "Optimized for ClearType"@), (0x4000, "Last Resort font"@)]
}

pub open spec fn spec_format_head_flags(bits: u16) -> Seq<char> {
    flags_text((bits) as nat, 4, flag_names((bits) as u64, head_flags()), "None"@)
}

/// The head flags with their names.
pub fn format_head_flags(bits: u16) -> (r: String)
    ensures
        r@ == spec_format_head_flags(bits),
{
    let bits: u64 = (bits) as u64;
    let table: Vec<(u64, &'static str)> = vec![(0x1, "Baseline at y=0"), (0x2, "LSB at x=0"), (0x4, "Instructions may depend on point size"), (0x8, "Force integer PPEM"), (0x10, "Instructions may alter advance width"), (0x800, "Lossless transformed font data"), (0x1000, "Converted font"), (0x2000, "Optimized for ClearType"), (0x4000, "Last Resort font")];
    assert(table_view(table@) =~= head_flags());
    let names = set_flag_names(bits, &table);
    flags_string(bits, 4, &names, "None")
}

} // verus!

verus! {

/// Seconds between 1904-01-01 and 1970-01-01.
pub const SECS_BETWEEN_1904_AND_1970: i64 = 2_082_844_800;

/// Division rounding toward zero (`b > 0`).
pub open spec fn tdiv(a: int, b: int) -> int {
    if a >= 0 { a / b } else { -((-a) / b) }
}

/// The proleptic Gregorian (year, month, day) of a day counted from 1970-01-01.
pub open spec fn spec_civil_from_days(days: int) -> (int, u32, u32) {
    let z = days + 719_468;
    let era = tdiv(if z >= 0 { z } else { z - 146_096 }, 146_097);
    let doe = z - era * 146_097;
    let yoe = (doe - doe / 1_460 + doe / 36_524 - doe / 146_096) / 365;
    let year = yoe + era * 400;
    let doy = doe - (365 * yoe + yoe / 4 - yoe / 100);
    let mp = (5 * doy + 2) / 153;
    let day = doy - (153 * mp + 2) / 5 + 1;
    let month = mp + if mp < 10 { 3int } else { -9int };
    (year + if month <= 2 { 1int } else { 0int }, month as u32, day as u32)
}

/// The day numbers for which the computation stays within 64 bits.
pub open spec fn days_in_range(days: int) -> bool {
    -0x0010_0000_0000_0000 <= days <= 0x0010_0000_0000_0000
}

/// Within an era, the day of the year that the year-of-era leaves is at most 365.
proof fn lemma_day_of_year_bound(doe: u32)
    requires
        doe < 146_097,
    ensures
        ({
            let yoe = (doe - doe / 1_460 + doe / 36_524 - doe / 146_096) / 365;
            0 <= doe - (365 * yoe + yoe / 4 - yoe / 100) <= 365
        }),
{
    assert({
        let yoe = (doe - doe / 1_460 + doe / 36_524 - doe / 146_096) / 365;
        0 <= doe - (365 * yoe + yoe / 4 - yoe / 100) <= 365
    }) by (bit_vector)
        requires
            doe < 146_097u32,
    ;
}

/// A day of the year from 0 to 365, counted from March, falls on month 1 to 12
/// and day 1 to 31.
proof fn lemma_month_day_bounds(doy: u32)
    requires
        doy <= 365,
    ensures
        ({
            let mp = (5 * doy + 2) / 153;
            let day = doy - (153 * mp + 2) / 5 + 1;
            let month = mp + if mp < 10 { 3int } else { -9int };
            &&& 1 <= day <= 31
            &&& 1 <= month <= 12
        }),
{
    assert({
        let mp = (5 * doy + 2) / 153;
        let day = doy - (153 * mp + 2) / 5 + 1;
        &&& 1 <= day <= 31
        &&& mp <= 11
    }) by (bit_vector)
        requires
            doy <= 365u32,
    ;
}

/// Every day number names a calendar date: its month lies in 1 to 12 and its
/// day in 1 to 31.
pub proof fn civil_date_is_valid(days: int)
    ensures
        1 <= spec_civil_from_days(days).1 <= 12,
        1 <= spec_civil_from_days(days).2 <= 31,
{
    let z = days + 719_468;
    let era = tdiv(if z >= 0 { z } else { z - 146_096 }, 146_097);
    assert(0 <= z - era * 146_097 < 146_097) by (nonlinear_arith)
        requires
            era == tdiv(if z >= 0 { z } else { z - 146_096 }, 146_097),
    ;
    let doe = z - era * 146_097;
    lemma_day_of_year_bound(doe as u32);
    let yoe = (doe - doe / 1_460 + doe / 36_524 - doe / 146_096) / 365;
    let doy = doe - (365 * yoe + yoe / 4 - yoe / 100);
    lemma_month_day_bounds(doy as u32);
}

/// Whether a year of the proleptic Gregorian calendar is a leap year.
pub open spec fn is_leap(y: int) -> bool {
    y % 4 == 0 && (y % 100 != 0 || y % 400 == 0)
}

/// The number of days of month `m` of year `y`.
pub open spec fn days_in_month(y: int, m: int) -> int {
    if m == 2 {
        if is_leap(y) { 29 } else { 28 }
    } else if m == 4 || m == 6 || m == 9 || m == 11 {
        30
    } else {
        31
    }
}

/// A day of the year past 364 is day 365 only in a year whose February
/// (at its end) is a leap one.
proof fn lemma_year_length(doe: u32)
    requires
        doe < 146_097,
    ensures
        ({
            let yoe = (doe - doe / 1_460 + doe / 36_524 - doe / 146_096) / 365;
            let doy = doe - (365 * yoe + yoe / 4 - yoe / 100);
            let y = yoe + 1;
            doy == 365 ==> y % 4 == 0 && (y % 100 != 0 || y % 400 == 0)
        }),
{
    assert({
        let yoe = (doe - doe / 1_460 + doe / 36_524 - doe / 146_096) / 365;
        let doy = doe - (365 * yoe + yoe / 4 - yoe / 100);
        let y = yoe + 1;
        doy == 365 ==> y % 4 == 0 && (y % 100 != 0 || y % 400 == 0)
    }) by (bit_vector)
        requires
            doe < 146_097u32,
    ;
}

/// Within a year counted from March, April, June, September and November
/// have 30 days, and February 28 days but on day 365 of the year.
proof fn lemma_month_lengths(doy: u32)
    requires
        doy <= 365,
    ensures
        ({
            let mp = (5 * doy + 2) / 153;
            let day = doy - (153 * mp + 2) / 5 + 1;
            let month = mp + if mp < 10 { 3int } else { -9int };
            &&& (month == 4 || month == 6 || month == 9 || month == 11) ==> day <= 30
            &&& month == 2 ==> day <= 28 || (doy == 365 && day == 29)
            &&& (month <= 2) == (mp >= 10)
        }),
{
    assert({
        let mp = (5 * doy + 2) / 153;
        let day = doy - (153 * mp + 2) / 5 + 1;
        let month = mp + if mp < 10 { 3int } else { -9int };
        &&& (month == 4 || month == 6 || month == 9 || month == 11) ==> day <= 30
        &&& month == 2 ==> day <= 28 || (doy == 365 && day == 29)
        &&& (month <= 2) == (mp >= 10)
    }) by (bit_vector)
        requires
            doy <= 365u32,
    ;
}

/// The month (1 to 12) and day of day `doy` of a year counted from March.
pub open spec fn year_day_date(doy: int) -> (int, int) {
    let mp = (5 * doy + 2) / 153;
    let day = doy - (153 * mp + 2) / 5 + 1;
    let month = mp + if mp < 10 { 3int } else { -9int };
    (month, day)
}

/// The length of a month other than February.
pub open spec fn long_month_len(month: int) -> int {
    if month == 4 || month == 6 || month == 9 || month == 11 { 30 } else { 31 }
}

proof fn lemma_next_day_of_year(doy: int)
    requires
        0 <= doy < 365,
    ensures
        ({
            let (month, day) = year_day_date(doy);
            let (month2, day2) = year_day_date(doy + 1);
            &&& month == 2 ==> month2 == 2 && day2 == day + 1
            &&& month != 2 && day < long_month_len(month) ==> month2 == month && day2 == day + 1
            &&& month != 2 && day >= long_month_len(month) ==> day == long_month_len(month) && day2 == 1
                && month2 == (if month == 12 { 1int } else { month + 1 })
        }),
{
}

/// The year of an era that the civil computation finds for day `doe`.
pub open spec fn year_of_era(doe: int) -> int {
    (doe - doe / 1_460 + doe / 36_524 - doe / 146_096) / 365
}

/// The day of an era on which year `y` of the era starts (1 March).
pub open spec fn year_start(y: int) -> int {
    365 * y + y / 4 - y / 100
}

proof fn lemma_year_of_era_bound(doe: u32)
    requires
        doe < 146_097,
    ensures
        (doe - doe / 1_460 + doe / 36_524 - doe / 146_096) / 365 <= 399,
{
    assert((doe - doe / 1_460 + doe / 36_524 - doe / 146_096) / 365 <= 399) by (bit_vector)
        requires
            doe < 146_097u32,
    ;
}

/// Day `k` of year `y` of an era (the year having 366 days where the
/// February it ends with is a leap one) is found again in year `y`.
proof fn lemma_year_of_era_inverse(y: u32, k: u32, doe: u32)
    requires
        y < 400,
        k <= 365,
        k == 365 ==> ((y + 1) % 4 == 0 && ((y + 1) % 100 != 0 || (y + 1) % 400 == 0)),
        doe == 365 * y + y / 4 - y / 100 + k,
    ensures
        (doe - doe / 1_460 + doe / 36_524 - doe / 146_096) / 365 == y,
{
    let y1: u32 = (y + 1) as u32;
    let leap: bool = y1 % 4 == 0 && (y1 % 100 != 0 || y1 % 400 == 0);
    let base: u32 = (365 * y + y / 4 - y / 100) as u32;
    assert(base + k == doe);
    assert(((doe - doe / 1_460 + doe / 36_524 - doe / 146_096) / 365) as u32 == y) by (bit_vector)
        requires
            y < 400u32,
            k <= 365u32,
            k == 365u32 ==> leap,
            y1 == y + 1,
            leap == (y1 % 4 == 0 && (y1 % 100 != 0 || y1 % 400 == 0)),
            base == 365 * y + y / 4 - y / 100,
            doe == base + k,
    ;
}

/// The year after year `y` of an era starts a year's length later: 366 days
/// where its February is a leap one.
proof fn lemma_next_year_start(y: u32)
    requires
        y < 400,
    ensures
        ({
            let y1 = y + 1;
            365 * y1 + y1 / 4 - y1 / 100 == 365 * y + y / 4 - y / 100 + 365
                + if y1 % 4 == 0 && y1 % 100 != 0 { 1int } else { 0int }
        }),
{
    let y1: u32 = (y + 1) as u32;
    let leap: bool = y1 % 4 == 0 && y1 % 100 != 0;
    let a: u32 = (365 * y1 + y1 / 4 - y1 / 100) as u32;
    let b: u32 = (365 * y + y / 4 - y / 100) as u32;
    assert(if leap { a == b + 366 } else { a == b + 365 }) by (bit_vector)
        requires
            y < 400u32,
            y1 == y + 1,
            leap == (y1 % 4 == 0 && y1 % 100 != 0),
            a == 365 * y1 + y1 / 4 - y1 / 100,
            b == 365 * y + y / 4 - y / 100,
    ;
}

/// Whole eras of 400 years do not change whether a year is a leap year.
proof fn lemma_leap_shift(era: int, y: int)
    ensures
        is_leap(era * 400 + y) == is_leap(y),
{
    vstd::arithmetic::div_mod::lemma_mod_multiples_vanish(era * 100, y, 4);
    vstd::arithmetic::div_mod::lemma_mod_multiples_vanish(era * 4, y, 100);
    vstd::arithmetic::div_mod::lemma_mod_multiples_vanish(era, y, 400);
    assert(4 * (era * 100) == era * 400) by (nonlinear_arith);
    assert(100 * (era * 4) == era * 400) by (nonlinear_arith);
    assert(400 * era == era * 400) by (nonlinear_arith);
}

/// The calendar day after a date.
pub open spec fn next_date(d: (int, u32, u32)) -> (int, u32, u32) {
    if (d.2 as int) < days_in_month(d.0, d.1 as int) {
        (d.0, d.1, (d.2 + 1) as u32)
    } else if d.1 < 12 {
        (d.0, (d.1 + 1) as u32, 1)
    } else {
        (d.0 + 1, 1, 1)
    }
}

/// The date of day `doe` of era `era`.
pub open spec fn era_day_date(era: int, doe: int) -> (int, u32, u32) {
    let yoe = year_of_era(doe);
    let doy = doe - year_start(yoe);
    let (month, day) = year_day_date(doy);
    (era * 400 + yoe + if month <= 2 { 1int } else { 0int }, month as u32, day as u32)
}

proof fn lemma_civil_by_era(days: int)
    ensures
        ({
            let z = days + 719_468;
            let era = tdiv(if z >= 0 { z } else { z - 146_096 }, 146_097);
            &&& 0 <= z - era * 146_097 < 146_097
            &&& spec_civil_from_days(days) == era_day_date(era, z - era * 146_097)
        }),
{
    let z = days + 719_468;
    let era = tdiv(if z >= 0 { z } else { z - 146_096 }, 146_097);
    assert(0 <= z - era * 146_097 < 146_097) by (nonlinear_arith)
        requires
            era == tdiv(if z >= 0 { z } else { z - 146_096 }, 146_097),
    ;
}

proof fn lemma_same_era(z: int, e1: int, d1: int, e2: int, d2: int)
    requires
        z == e1 * 146_097 + d1,
        z == e2 * 146_097 + d2,
        0 <= d1 < 146_097,
        0 <= d2 < 146_097,
    ensures
        e1 == e2,
        d1 == d2,
{
    assert(e1 == e2) by (nonlinear_arith)
        requires
            e1 * 146_097 + d1 == e2 * 146_097 + d2,
            0 <= d1 < 146_097,
            0 <= d2 < 146_097,
    ;
}

/// From the last day of an era to the first day of the next.
proof fn lemma_next_day_across_eras(era: int)
    ensures
        era_day_date(era + 1, 0) == next_date(era_day_date(era, 146_096)),
{
    assert(year_of_era(146_096) == 399);
    assert(year_start(399) == 145_731);
    assert(year_day_date(365) == (2int, 29int));
    assert(year_of_era(0) == 0);
    assert(year_day_date(0) == (3int, 1int));
    lemma_leap_shift(era + 1, 0);
    assert(era * 400 + 399 + 1 == (era + 1) * 400);
}

/// From a day of a year that is not the year's last to the next.
proof fn lemma_next_day_in_year(era: int, doe: int)
    requires
        0 <= doe < 146_096,
        0 <= doe - year_start(year_of_era(doe)) < 364
            || (doe - year_start(year_of_era(doe)) == 364 && is_leap(year_of_era(doe) + 1)),
        0 <= year_of_era(doe) <= 399,
    ensures
        era_day_date(era, doe + 1) == next_date(era_day_date(era, doe)),
{
    let yoe = year_of_era(doe);
    let doy = doe - year_start(yoe);
    lemma_leap_shift(era, yoe + 1);
    lemma_year_of_era_inverse(yoe as u32, (doy + 1) as u32, (doe + 1) as u32);
    assert(year_of_era(doe + 1) == yoe);
    lemma_next_day_of_year(doy);
    lemma_month_lengths(doy as u32);
    lemma_month_lengths((doy + 1) as u32);
}

/// From the last day of a year (within an era) to the first of the next.
proof fn lemma_next_day_across_years(era: int, doe: int)
    requires
        0 <= doe < 146_096,
        doe - year_start(year_of_era(doe)) == 365
            || (doe - year_start(year_of_era(doe)) == 364 && !is_leap(year_of_era(doe) + 1)),
        doe - year_start(year_of_era(doe)) == 365 ==> is_leap(year_of_era(doe) + 1),
        0 <= year_of_era(doe) <= 399,
    ensures
        era_day_date(era, doe + 1) == next_date(era_day_date(era, doe)),
{
    let yoe = year_of_era(doe);
    let doy = doe - year_start(yoe);
    lemma_leap_shift(era, yoe + 1);
    lemma_next_year_start(yoe as u32);
    assert(yoe < 399);
    lemma_year_of_era_inverse((yoe + 1) as u32, 0, (doe + 1) as u32);
    assert(year_of_era(doe + 1) == yoe + 1);
    assert(year_day_date(0) == (3int, 1int));
    assert(year_day_date(364) == (2int, 28int));
    assert(year_day_date(365) == (2int, 29int));
}

/// The day after each day number is the next calendar day: the next day of
/// its month, the first of the next month after a month's last day (29
/// February only in leap years), and 1 January after 31 December.
pub proof fn civil_next_day(days: int)
    ensures
        spec_civil_from_days(days + 1) == next_date(spec_civil_from_days(days)),
{
    lemma_civil_by_era(days);
    lemma_civil_by_era(days + 1);
    let z = days + 719_468;
    let era = tdiv(if z >= 0 { z } else { z - 146_096 }, 146_097);
    let doe = z - era * 146_097;
    let z2 = z + 1;
    let era2 = tdiv(if z2 >= 0 { z2 } else { z2 - 146_096 }, 146_097);
    let doe2 = z2 - era2 * 146_097;
    if doe == 146_096 {
        lemma_same_era(z2, era2, doe2, era + 1, 0);
        lemma_next_day_across_eras(era);
    } else {
        lemma_same_era(z2, era2, doe2, era, doe + 1);
        lemma_day_of_year_bound(doe as u32);
        lemma_year_length(doe as u32);
        lemma_year_of_era_bound(doe as u32);
        let yoe = year_of_era(doe);
        let doy = doe - year_start(yoe);
        if doy < 364 || (doy == 364 && is_leap(yoe + 1)) {
            lemma_next_day_in_year(era, doe);
        } else {
            lemma_next_day_across_years(era, doe);
        }
    }
}

/// Every day number names a day that its month has: the day never passes
/// the length of its month, February having 29 days in leap years only.
pub proof fn civil_day_within_month(days: int)
    ensures
        spec_civil_from_days(days).2 as int <= days_in_month(spec_civil_from_days(days).0, spec_civil_from_days(days).1 as int),
{
    civil_date_is_valid(days);
    let z = days + 719_468;
    let era = tdiv(if z >= 0 { z } else { z - 146_096 }, 146_097);
    assert(0 <= z - era * 146_097 < 146_097) by (nonlinear_arith)
        requires
            era == tdiv(if z >= 0 { z } else { z - 146_096 }, 146_097),
    ;
    let doe = z - era * 146_097;
    lemma_day_of_year_bound(doe as u32);
    lemma_year_length(doe as u32);
    let yoe = (doe - doe / 1_460 + doe / 36_524 - doe / 146_096) / 365;
    let doy = doe - (365 * yoe + yoe / 4 - yoe / 100);
    lemma_month_lengths(doy as u32);
    lemma_leap_shift(era, yoe + 1);
}

pub fn civil_from_days(days_since_unix_epoch: i64) -> (r: (i64, u32, u32))
    requires
        days_in_range(days_since_unix_epoch as int),
    ensures
        (r.0 as int, r.1, r.2) == spec_civil_from_days(days_since_unix_epoch as int),
{
    let z = days_since_unix_epoch + 719_468;
    let era: i64 = if z >= 0 { z / 146_097 } else { -((146_096 - z) / 146_097) };
    assert(era == tdiv(if z >= 0 { z as int } else { z - 146_096 }, 146_097));
    assert(0 <= z - era * 146_097 < 146_097) by (nonlinear_arith)
        requires
            era == tdiv(if z >= 0 { z as int } else { z - 146_096 }, 146_097),
    ;
    let doe = z - era * 146_097;
    assert(0 <= doe - doe / 1_460 + doe / 36_524 - doe / 146_096 <= 146_096) by (nonlinear_arith)
        requires
            0 <= doe < 146_097,
    ;
    let yoe = (doe - doe / 1_460 + doe / 36_524 - doe / 146_096) / 365;
    let year = yoe + era * 400;
    assert(0 <= doe - (365 * yoe + yoe / 4 - yoe / 100) <= 146_096) by (nonlinear_arith)
        requires
            0 <= doe < 146_097,
            yoe == (doe - doe / 1_460 + doe / 36_524 - doe / 146_096) / 365,
    ;
    let doy = doe - (365 * yoe + yoe / 4 - yoe / 100);
    let mp = (5 * doy + 2) / 153;
    let day = doy - (153 * mp + 2) / 5 + 1;
    let month = mp + if mp < 10 { 3 } else { -9 };
    let year = year + if month <= 2 { 1 } else { 0 };
    (year, month as u32, day as u32)
}

} // verus!

verus! {

/// A calendar date and time of day.
pub struct DateTimeParts {
    pub year: i64,
    pub month: u32,
    pub day: u32,
    pub hour: i64,
    pub minute: i64,
    pub second: i64,
}

/// The calendar date and time of a LongDateTime: seconds since
/// 1904-01-01T00:00:00Z.
pub open spec fn spec_long_date_time_parts(secs: int) -> (int, u32, u32, int, int, int) {
    let unix = secs - SECS_BETWEEN_1904_AND_1970;
    let days = unix / 86_400;
    let sod = unix % 86_400;
    let ymd = spec_civil_from_days(days);
    (ymd.0, ymd.1, ymd.2, sod / 3_600, (sod % 3_600) / 60, sod % 60)
}

/// Every LongDateTime names a calendar date and a time of day: month 1 to 12,
/// day 1 to 31, hour 0 to 23, minute and second 0 to 59.
pub proof fn date_time_parts_are_valid(secs: int)
    ensures
        ({
            let p = spec_long_date_time_parts(secs);
            &&& 1 <= p.1 <= 12
            &&& 1 <= p.2 <= 31
            &&& 0 <= p.3 < 24
            &&& 0 <= p.4 < 60
            &&& 0 <= p.5 < 60
        }),
{
    let unix = secs - SECS_BETWEEN_1904_AND_1970;
    civil_date_is_valid(unix / 86_400);
    let sod = unix % 86_400;
    assert(0 <= sod / 3_600 < 24 && 0 <= (sod % 3_600) / 60 < 60 && 0 <= sod % 60 < 60)
        by (nonlinear_arith)
        requires
            0 <= sod < 86_400,
    ;
}

pub open spec fn parts_view(p: DateTimeParts) -> (int, u32, u32, int, int, int) {
    (p.year as int, p.month, p.day, p.hour as int, p.minute as int, p.second as int)
}

/// The seconds for which shifting to the Unix epoch stays within 64 bits.
pub open spec fn secs_in_range(secs: int) -> bool {
    i64::MIN + SECS_BETWEEN_1904_AND_1970 <= secs
}

pub fn long_date_time_parts(secs_since_1904: i64) -> (r: DateTimeParts)
    requires
        secs_in_range(secs_since_1904 as int),
    ensures
        parts_view(r) == spec_long_date_time_parts(secs_since_1904 as int),
{
    let unix_secs = secs_since_1904 - SECS_BETWEEN_1904_AND_1970;
    let (days, seconds_of_day): (i64, i64) = if unix_secs >= 0 {
        (unix_secs / 86_400, unix_secs % 86_400)
    } else {
        let a = -(unix_secs + 1);
        (-(a / 86_400) - 1, 86_399 - a % 86_400)
    };
    assert(days == unix_secs as int / 86_400 && seconds_of_day == unix_secs as int % 86_400)
        by (nonlinear_arith)
        requires
            unix_secs >= 0 ==> days == unix_secs as int / 86_400 && seconds_of_day == unix_secs
                as int % 86_400,
            unix_secs < 0 ==> days == -((-(unix_secs as int + 1)) / 86_400) - 1 && seconds_of_day
                == 86_399 - (-(unix_secs as int + 1)) % 86_400,
    ;
    assert(days_in_range(days as int)) by (nonlinear_arith)
        requires
            days == unix_secs as int / 86_400,
            i64::MIN <= unix_secs <= i64::MAX,
    ;
    let (year, month, day) = civil_from_days(days);
    DateTimeParts {
        year,
        month,
        day,
        hour: seconds_of_day / 3_600,
        minute: (seconds_of_day % 3_600) / 60,
        second: seconds_of_day % 60,
    }
}

pub open spec fn spec_is_reasonable(year: int) -> bool {
    1904 <= year <= 2100
}

/// Whether the year lies in the span that real fonts date from.
pub fn is_reasonable_long_date_time(parts: &DateTimeParts) -> (r: bool)
    ensures
        r == spec_is_reasonable(parts.year as int),
{
    1904 <= parts.year && parts.year <= 2100
}

/// A year in at least four characters, a minus sign counted among them.
pub open spec fn year_text(y: int) -> Seq<char> {
    if y < 0 {
        seq!['-'] + dec((-y) as nat, 3)
    } else {
        dec(y as nat, 4)
    }
}

pub open spec fn two(v: int) -> Seq<char> {
    if v < 0 {
        seq!['-'] + dec((-v) as nat, 1)
    } else {
        dec(v as nat, 2)
    }
}

/// `YYYY-MM-DDTHH:MM:SSZ`.
pub open spec fn spec_iso_string(p: (int, u32, u32, int, int, int)) -> Seq<char> {
    year_text(p.0) + "-"@ + dec(p.1 as nat, 2) + "-"@ + dec(p.2 as nat, 2) + "T"@ + two(p.3) + ":"@
        + two(p.4) + ":"@ + two(p.5) + "Z"@
}

fn signed_width_string(v: i64, width: u64) -> (r: String)
    requires
        width >= 1,
    ensures
        r@ == (if v < 0 {
            seq!['-'] + dec((-(v as int)) as nat, (width - 1) as nat)
        } else {
            dec(v as nat, width as nat)
        }),
{
    if v < 0 {
        let mag: u64 = if v == i64::MIN { 9223372036854775808u64 } else { (-v) as u64 };
        let mut s = text("-");
        let d = dec_string(mag, width - 1);
        s.append(d.as_str());
        proof {
            reveal_strlit("-");
        }
        s
    } else {
        dec_string(v as u64, width)
    }
}

impl DateTimeParts {
    pub fn to_iso_string(&self) -> (r: String)
        ensures
            r@ == spec_iso_string(parts_view(*self)),
    {
        let mut s = signed_width_string(self.year, 4);
        s.append("-");
        let m = dec_string(self.month as u64, 2);
        s.append(m.as_str());
        s.append("-");
        let d = dec_string(self.day as u64, 2);
        s.append(d.as_str());
        s.append("T");
        let h = if self.hour < 0 { signed_width_string(self.hour, 1) } else { dec_string(self.hour as u64, 2) };
        s.append(h.as_str());
        s.append(":");
        let mi = if self.minute < 0 { signed_width_string(self.minute, 1) } else { dec_string(self.minute as u64, 2) };
        s.append(mi.as_str());
        s.append(":");
        let se = if self.second < 0 { signed_width_string(self.second, 1) } else { dec_string(self.second as u64, 2) };
        s.append(se.as_str());
        s.append("Z");
        s
    }
}

/// Bytes as upper-case hexadecimal, two digits each.
pub open spec fn spec_format_raw_bytes(bytes: Seq<u8>) -> Seq<char>
    decreases bytes.len(),
{
    if bytes.len() == 0 {
        seq![]
    } else {
        spec_format_raw_bytes(bytes.drop_last()) + hex(bytes.last() as nat, 2)
    }
}

pub fn format_raw_bytes(bytes: &[u8]) -> (r: String)
    ensures
        r@ == spec_format_raw_bytes(bytes@),
{
    let mut s = String::new();
    let mut i: usize = 0;
    while i < bytes.len()
        invariant
            0 <= i <= bytes@.len(),
            s@ == spec_format_raw_bytes(bytes@.take(i as int)),
        decreases bytes@.len() - i,
    {
        let h = hex_string(bytes[i] as u64, 2);
        s.append(h.as_str());
        assert(bytes@.take(i + 1).drop_last() =~= bytes@.take(i as int));
        i = i + 1;
    }
    assert(bytes@.take(bytes@.len() as int) =~= bytes@);
    s
}

/// The signed 64-bit big-endian value of eight bytes.
pub open spec fn i64_of(raw: Seq<u8>) -> int {
    let hi = u32_at(raw, 0);
    let lo = u32_at(raw, 4);
    let u = hi * 0x1_0000_0000 + lo;
    if u >= 0x8000_0000_0000_0000 { u - 0x1_0000_0000_0000_0000 } else { u }
}

/// The text of a LongDateTime: the date where it is reasonable; else the
/// date of its low 32 bits where that is; else "Invalid date". The last two
/// show the raw bytes.
pub open spec fn spec_format_long_date_time(raw: Seq<u8>) -> Seq<char> {
    let secs = i64_of(raw);
    let parts = spec_long_date_time_parts(secs);
    let low_parts = spec_long_date_time_parts(u32_at(raw, 4));
    if secs_in_range(secs) && spec_is_reasonable(parts.0) {
        spec_iso_string(parts)
    } else if spec_is_reasonable(low_parts.0) {
        spec_iso_string(low_parts) + " (low 32 bits; raw 0x"@ + spec_format_raw_bytes(raw) + ")"@
    } else {
        "Invalid date (raw 0x"@ + spec_format_raw_bytes(raw) + ")"@
    }
}

pub fn format_long_date_time(raw: &[u8]) -> (r: String)
    requires
        raw@.len() == 8,
    ensures
        r@ == spec_format_long_date_time(raw@),
{
    let hi = be_u32(raw, 0);
    let lo = be_u32(raw, 4);
    let u: u64 = (hi as u64) * 0x1_0000_0000 + lo as u64;
    let secs: i64 = if u >= 0x8000_0000_0000_0000 {
        ((u - 0x8000_0000_0000_0000) as i64) + i64::MIN
    } else {
        u as i64
    };
    if secs >= i64::MIN + SECS_BETWEEN_1904_AND_1970 {
        let parts = long_date_time_parts(secs);
        if is_reasonable_long_date_time(&parts) {
            return parts.to_iso_string();
        }
    }
    let low_parts = long_date_time_parts(lo as i64);
    if is_reasonable_long_date_time(&low_parts) {
        let mut s = low_parts.to_iso_string();
        s.append(" (low 32 bits; raw 0x");
        let b = format_raw_bytes(raw);
        s.append(b.as_str());
        s.append(")");
        return s;
    }
    let mut s = text("Invalid date (raw 0x");
    let b = format_raw_bytes(raw);
    s.append(b.as_str());
    s.append(")");
    s
}

} // verus!

verus! {

/// The fields of the font header, in order.
pub open spec fn head_layout() -> Seq<(Seq<char>, Seq<char>, Kind, Cond)> {
    seq![
        ("version"@, "MajorMinor"@, Kind::MajorMinor, Cond::Always),
        ("fontRevision"@, "Fixed"@, Kind::FixedText, Cond::Always),
        ("checksumAdjustment"@, "uint32"@, Kind::U32, Cond::Always),
        ("magicNumber"@, "String"@, Kind::HexU32, Cond::Always),
        ("flags"@, "uint16"@, Kind::HeadFlags, Cond::Always),
        ("unitsPerEm"@, "uint16"@, Kind::U16, Cond::Always),
        ("created"@, "LongDateTime"@, Kind::LongDateTime, Cond::Always),
        ("modified"@, "LongDateTime"@, Kind::LongDateTime, Cond::Always),
        ("xMin"@, "int16"@, Kind::I16, Cond::Always),
        ("yMin"@, "int16"@, Kind::I16, Cond::Always),
        ("xMax"@, "int16"@, Kind::I16, Cond::Always),
        ("yMax"@, "int16"@, Kind::I16, Cond::Always),
        ("macStyle"@, "uint16"@, Kind::MacStyle, Cond::Always),
        ("lowestRecPpem"@, "uint16"@, Kind::U16, Cond::Always),
        ("fontDirectionHint"@, "int16"@, Kind::I16, Cond::Always),
        ("indexToLocFormat"@, "int16"@, Kind::I16, Cond::Always),
        ("glyphDataFormat"@, "int16"@, Kind::I16, Cond::Always),
    ]
}

fn head_layout_items() -> (r: Vec<Item>)
    ensures
        items_view(r@) == head_layout(),
{
    let v: Vec<Item> = vec![
        Item { key: "version", ty: "MajorMinor", kind: Kind::MajorMinor, cond: Cond::Always },
        Item { key: "fontRevision", ty: "Fixed", kind: Kind::FixedText, cond: Cond::Always },
        Item { key: "checksumAdjustment", ty: "uint32", kind: Kind::U32, cond: Cond::Always },
        Item { key: "magicNumber", ty: "String", kind: Kind::HexU32, cond: Cond::Always },
        Item { key: "flags", ty: "uint16", kind: Kind::HeadFlags, cond: Cond::Always },
        Item { key: "unitsPerEm", ty: "uint16", kind: Kind::U16, cond: Cond::Always },
        Item { key: "created", ty: "LongDateTime", kind: Kind::LongDateTime, cond: Cond::Always },
        Item { key: "modified", ty: "LongDateTime", kind: Kind::LongDateTime, cond: Cond::Always },
        Item { key: "xMin", ty: "int16", kind: Kind::I16, cond: Cond::Always },
        Item { key: "yMin", ty: "int16", kind: Kind::I16, cond: Cond::Always },
        Item { key: "xMax", ty: "int16", kind: Kind::I16, cond: Cond::Always },
        Item { key: "yMax", ty: "int16", kind: Kind::I16, cond: Cond::Always },
        Item { key: "macStyle", ty: "uint16", kind: Kind::MacStyle, cond: Cond::Always },
        Item { key: "lowestRecPpem", ty: "uint16", kind: Kind::U16, cond: Cond::Always },
        Item { key: "fontDirectionHint", ty: "int16", kind: Kind::I16, cond: Cond::Always },
        Item { key: "indexToLocFormat", ty: "int16", kind: Kind::I16, cond: Cond::Always },
        Item { key: "glyphDataFormat", ty: "int16", kind: Kind::I16, cond: Cond::Always },
    ];
    assert(items_view(v@) =~= head_layout());
    v
}

/// The font header, described field by field; tables shorter than the header are refused.
pub open spec fn spec_parse_table(t: Seq<u8>) -> Result<JsonV, Seq<char>> {
    if t.len() < 54 {
        Err(out_of_bounds())
    } else {
        Ok(JsonV::Obj(layout_fields(t, head_layout(), 0, 0)))
    }
}

/// Every field of the font header stands in the order of the OpenType
/// record, under its own name, read at its offset: the version at 0, the font
/// revision at 4, the checksum adjustment at 8, the magic number at 12, the
/// flags at 16, unitsPerEm at 18, the two dates at 20 and 28, the bounding box
/// (xMin, yMin, xMax, yMax) from 36, and the last fields up to
/// glyphDataFormat at 52.
pub proof fn head_fields_follow_the_record(t: Seq<u8>)
    requires
        t.len() >= 54,
    ensures
        spec_parse_table(t) is Ok,
        ({
            let e = spec_parse_table(t)->Ok_0->Obj_0;
            &&& e.len() >= 17
            &&& e[0] == ("version"@, sfield("MajorMinor"@, kind_value(t, 0, Kind::MajorMinor), 0, 4))
            &&& e[1] == ("fontRevision"@, sfield("Fixed"@, kind_value(t, 4, Kind::FixedText), 4, 4))
            &&& e[2] == ("checksumAdjustment"@, sfield("uint32"@, kind_value(t, 8, Kind::U32), 8, 4))
            &&& e[3] == ("magicNumber"@, sfield("String"@, kind_value(t, 12, Kind::HexU32), 12, 4))
            &&& e[4] == ("flags"@, sfield("uint16"@, kind_value(t, 16, Kind::HeadFlags), 16, 2))
            &&& e[5] == ("unitsPerEm"@, sfield("uint16"@, kind_value(t, 18, Kind::U16), 18, 2))
            &&& e[6] == ("created"@, sfield("LongDateTime"@, kind_value(t, 20, Kind::LongDateTime), 20, 8))
            &&& e[7] == ("modified"@, sfield("LongDateTime"@, kind_value(t, 28, Kind::LongDateTime), 28, 8))
            &&& e[8] == ("xMin"@, sfield("int16"@, kind_value(t, 36, Kind::I16), 36, 2))
            &&& e[9] == ("yMin"@, sfield("int16"@, kind_value(t, 38, Kind::I16), 38, 2))
            &&& e[10] == ("xMax"@, sfield("int16"@, kind_value(t, 40, Kind::I16), 40, 2))
            &&& e[11] == ("yMax"@, sfield("int16"@, kind_value(t, 42, Kind::I16), 42, 2))
            &&& e[12] == ("macStyle"@, sfield("uint16"@, kind_value(t, 44, Kind::MacStyle), 44, 2))
            &&& e[13] == ("lowestRecPpem"@, sfield("uint16"@, kind_value(t, 46, Kind::U16), 46, 2))
            &&& e[14] == ("fontDirectionHint"@, sfield("int16"@, kind_value(t, 48, Kind::I16), 48, 2))
            &&& e[15] == ("indexToLocFormat"@, sfield("int16"@, kind_value(t, 50, Kind::I16), 50, 2))
            &&& e[16] == ("glyphDataFormat"@, sfield("int16"@, kind_value(t, 52, Kind::I16), 52, 2))
        }),
{
    let l = head_layout();
    reveal_with_fuel(crate::layout::prefix_applies, 18);
    reveal_with_fuel(crate::layout::size_before, 18);
    assert(crate::layout::prefix_applies(t, l, 0, 17));
    assert(crate::layout::size_before(l, 0, 17) == 54);
    crate::layout::layout_fields_in_order(t, l, 0, 0, 17);
}

/// The font header, described field by field; tables shorter than the header are refused.
pub fn parse_table(t: &[u8]) -> (r: Result<Json, String>)
    requires
        small_len(t@.len() as int),
    ensures
        parsed_view(r) == spec_parse_table(t@),
{
    if t.len() < 54 {
        return Err(text("An offset was out of bounds"));
    }
    let items = head_layout_items();
    let mut o = new_obj();
    read_layout(t, &items, 0, &mut o);
    assert(jv_entries(o@) =~= layout_fields(t@, head_layout(), 0, 0));
    Ok(jobj(o))
}

/// The tag of this table.
pub open spec fn table_tag() -> Seq<u8> {
    seq![104u8, 101u8, 97u8, 100u8]
}

/// The `head` table of a font, described field by field.
pub open spec fn spec_parse(font: Seq<u8>) -> Result<JsonV, Seq<char>> {
    match spec_load(font, table_tag()) {
        Err(e) => Err(e),
        Ok(t) => spec_parse_table(t),
    }
}

/// Describes the `head` table of a font.
pub fn parse(font: &[u8]) -> (r: Result<Json, String>)
    requires
        small_len(font@.len() as int),
    ensures
        parsed_view(r) == spec_parse(font@),
{
    let tag: Vec<u8> = vec![104u8, 101u8, 97u8, 100u8];
    assert(tag@ =~= table_tag());
    match load_table(font, tag.as_slice()) {
        Err(e) => Err(e),
        Ok(t) => parse_table(t.as_slice()),
    }
}

} // verus!
