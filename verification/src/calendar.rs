//! UTC timestamps from Unix seconds, without a time library.
use vstd::prelude::*;
use vstd::string::StringExecFns;

#[allow(unused_imports)]
use crate::overrides::{before, law_key_order};
use crate::text::dec_padded;
#[allow(unused_imports)]
use crate::text::{dec, digit, unsigned, zero_padded};
#[allow(unused_imports)]
use crate::text_laws::law_a_written_number_reads_back;

verus! {

/// Whether a year has a leap day.
pub open spec fn is_leap(year: int) -> bool {
    year % 4 == 0 && (year % 100 != 0 || year % 400 == 0)
}

/// The days of a year.
pub open spec fn days_in_year(year: int) -> int {
    if is_leap(year) {
        366
    } else {
        365
    }
}

/// The days of a month.
pub open spec fn days_in_month(year: int, month: int) -> int {
    if month == 2 {
        if is_leap(year) {
            29
        } else {
            28
        }
    } else if month == 4 || month == 6 || month == 9 || month == 11 {
        30
    } else {
        31
    }
}

/// The days from the start of 1970 to the start of a year.
pub open spec fn year_start(year: int) -> int {
    365 * (year - 1970) + (year - 1) / 4 - (year - 1) / 100 + (year - 1) / 400 - 477
}

/// The days from the start of a year to the start of a month.
pub open spec fn month_start(year: int, month: int) -> int
    decreases month,
{
    if month <= 1 {
        0
    } else {
        month_start(year, month - 1) + days_in_month(year, month - 1)
    }
}

/// A date is the `day`th day after 1970-01-01.
pub open spec fn is_date(days: int, year: int, month: int, day: int) -> bool {
    &&& 1970 <= year
    &&& 1 <= month <= 12
    &&& 1 <= day <= days_in_month(year, month)
    &&& days == year_start(year) + month_start(year, month) + day - 1
}

proof fn lemma_year(year: int)
    requires
        year >= 1970,
    ensures
        year_start(year + 1) == year_start(year) + days_in_year(year),
        year_start(year + 400) == year_start(year) + 146_097,
{
    assert(year_start(year + 1) == year_start(year) + days_in_year(year)) by {
        let y = year;
        assert(y / 4 == (y - 1) / 4 + if y % 4 == 0 { 1int } else { 0 });
        assert(y / 100 == (y - 1) / 100 + if y % 100 == 0 { 1int } else { 0 });
        assert(y / 400 == (y - 1) / 400 + if y % 400 == 0 { 1int } else { 0 });
        assert(y % 400 == 0 ==> y % 100 == 0);
        assert(y % 100 == 0 ==> y % 4 == 0);
    }
}

proof fn lemma_years_grow(a: int, b: int)
    requires
        1970 <= a <= b,
    ensures
        year_start(a) + 365 * (b - a) <= year_start(b),
    decreases b - a,
{
    if a < b {
        lemma_years_grow(a, b - 1);
        lemma_year(b - 1);
    }
}

proof fn lemma_months(year: int)
    ensures
        month_start(year, 1) == 0,
        month_start(year, 13) == days_in_year(year),
{
    reveal_with_fuel(month_start, 14);
}

proof fn lemma_months_grow(year: int, a: int, b: int)
    requires
        1 <= a <= b,
    ensures
        month_start(year, a) + 28 * (b - a) <= month_start(year, b),
    decreases b - a,
{
    if a < b {
        lemma_months_grow(year, a, b - 1);
    }
}

proof fn lemma_date_in_year(days: int, year: int, month: int, day: int)
    requires
        is_date(days, year, month, day),
    ensures
        year_start(year) <= days < year_start(year + 1),
        month_start(year, month) <= days - year_start(year) < month_start(year, month + 1),
{
    lemma_year(year);
    lemma_months(year);
    lemma_months_grow(year, 1, month);
    lemma_months_grow(year, month + 1, 13);
}

/// A day has one date.
pub proof fn law_a_day_has_one_date(
    days: int,
    y1: int,
    m1: int,
    d1: int,
    y2: int,
    m2: int,
    d2: int,
)
    requires
        is_date(days, y1, m1, d1),
        is_date(days, y2, m2, d2),
    ensures
        y1 == y2,
        m1 == m2,
        d1 == d2,
{
    lemma_date_in_year(days, y1, m1, d1);
    lemma_date_in_year(days, y2, m2, d2);
    if y1 < y2 {
        lemma_years_grow(y1 + 1, y2);
    }
    if y2 < y1 {
        lemma_years_grow(y2 + 1, y1);
    }
    if m1 < m2 {
        lemma_months_grow(y1, m1 + 1, m2);
    }
    if m2 < m1 {
        lemma_months_grow(y1, m2 + 1, m1);
    }
}

/// The timestamp of a date and a second of its day.
pub open spec fn stamp(year: int, month: int, day: int, second: int) -> Seq<char> {
    zero_padded(dec(year as nat), 4) + "-"@ + zero_padded(dec(month as nat), 2) + "-"@
        + zero_padded(dec(day as nat), 2) + "T"@ + zero_padded(dec((second / 3600) as nat), 2)
        + ":"@ + zero_padded(dec(((second % 3600) / 60) as nat), 2) + ":"@ + zero_padded(
        dec((second % 60) as nat),
        2,
    ) + "Z"@
}

/// A text is the timestamp of the moment so many seconds after the start of
/// 1970.
pub open spec fn is_stamp(secs: int, text: Seq<char>) -> bool {
    exists|year: int, month: int, day: int|
        #![trigger is_date(secs / 86_400, year, month, day)]
        is_date(secs / 86_400, year, month, day) && text == stamp(year, month, day, secs % 86_400)
}

/// The first second of the year 10000.
pub const FIVE_DIGIT_YEARS: u64 = 253_402_300_800;

proof fn lemma_two_digits(n: int)
    requires
        0 <= n < 100,
    ensures
        zero_padded(dec(n as nat), 2) == seq![digit((n / 10) as nat), digit((n % 10) as nat)],
{
    reveal_with_fuel(dec, 2);
    reveal_with_fuel(zero_padded, 2);
    if n < 10 {
        assert(seq!['0'] + dec(n as nat) =~= seq![digit(0), digit(n as nat)]);
    } else {
        assert(dec(n as nat) =~= seq![digit((n / 10) as nat), digit((n % 10) as nat)]);
    }
}

proof fn lemma_four_digits(n: int)
    requires
        1000 <= n < 10_000,
    ensures
        zero_padded(dec(n as nat), 4) == seq![
            digit((n / 1000) as nat),
            digit((n / 100 % 10) as nat),
            digit((n / 10 % 10) as nat),
            digit((n % 10) as nat),
        ],
{
    reveal_with_fuel(dec, 4);
    assert(n / 10 / 10 == n / 100 && n / 100 / 10 == n / 1000);
    assert(dec(n as nat) =~= seq![
        digit((n / 1000) as nat),
        digit((n / 100 % 10) as nat),
        digit((n / 10 % 10) as nat),
        digit((n % 10) as nat),
    ]);
}

proof fn lemma_two_digits_grow(n: int, m: int)
    requires
        0 <= n < m < 100,
    ensures
        before(zero_padded(dec(n as nat), 2), zero_padded(dec(m as nat), 2)),
{
    lemma_two_digits(n);
    lemma_two_digits(m);
    let a = zero_padded(dec(n as nat), 2);
    let b = zero_padded(dec(m as nat), 2);
    if n / 10 == m / 10 {
        lemma_before_at(a, b, 1);
    } else {
        lemma_before_at(a, b, 0);
    }
}

#[verifier::spinoff_prover]
#[verifier::rlimit(50)]
proof fn lemma_four_digits_grow(n: int, m: int)
    requires
        1000 <= n < m < 10_000,
    ensures
        before(zero_padded(dec(n as nat), 4), zero_padded(dec(m as nat), 4)),
{
    lemma_four_digits(n);
    lemma_four_digits(m);
    let a = zero_padded(dec(n as nat), 4);
    let b = zero_padded(dec(m as nat), 4);
    if n / 1000 != m / 1000 {
        lemma_before_at(a, b, 0);
    } else if n / 100 != m / 100 {
        lemma_before_at(a, b, 1);
    } else if n / 10 != m / 10 {
        lemma_before_at(a, b, 2);
    } else {
        lemma_before_at(a, b, 3);
    }
}

/// Texts that agree up to a place are ordered by what stands there.
proof fn lemma_before_at(a: Seq<char>, b: Seq<char>, k: int)
    requires
        0 <= k < a.len(),
        k < b.len(),
        forall|i: int| 0 <= i < k ==> #[trigger] a[i] == b[i],
        a[k] < b[k],
    ensures
        before(a, b),
    decreases k,
{
    if k > 0 {
        assert(a[0] == b[0]);
        assert forall|i: int| 0 <= i < k - 1 implies #[trigger] a.skip(1)[i] == b.skip(1)[i] by {
            assert(a[i + 1] == b[i + 1]);
        }
        lemma_before_at(a.skip(1), b.skip(1), k - 1);
    }
}

/// Texts of one length that are ordered stay so whatever follows them.
proof fn lemma_before_then(a: Seq<char>, b: Seq<char>, x: Seq<char>, y: Seq<char>)
    requires
        a.len() == b.len(),
        before(a, b),
    ensures
        before(a + x, b + y),
    decreases a.len(),
{
    if a[0] == b[0] {
        lemma_before_then(a.skip(1), b.skip(1), x, y);
        assert((a + x).skip(1) =~= a.skip(1) + x);
        assert((b + y).skip(1) =~= b.skip(1) + y);
    }
}

/// Texts that are ordered stay so behind a common beginning.
proof fn lemma_before_behind(a: Seq<char>, x: Seq<char>, y: Seq<char>)
    requires
        before(x, y),
    ensures
        before(a + x, a + y),
    decreases a.len(),
{
    if a.len() == 0 {
        assert(a + x =~= x);
        assert(a + y =~= y);
    } else {
        lemma_before_behind(a.skip(1), x, y);
        assert((a + x).skip(1) =~= a.skip(1) + x);
        assert((a + y).skip(1) =~= a.skip(1) + y);
    }
}

/// The date part of a timestamp, and the time part.
spec fn date_part(year: int, month: int, day: int) -> Seq<char> {
    zero_padded(dec(year as nat), 4) + ("-"@ + (zero_padded(dec(month as nat), 2) + ("-"@
        + zero_padded(dec(day as nat), 2))))
}

spec fn time_part(second: int) -> Seq<char> {
    zero_padded(dec((second / 3600) as nat), 2) + (":"@ + (zero_padded(
        dec(((second % 3600) / 60) as nat),
        2,
    ) + (":"@ + (zero_padded(dec((second % 60) as nat), 2) + "Z"@))))
}

proof fn lemma_parts(year: int, month: int, day: int, second: int)
    requires
        1970 <= year < 10_000,
        1 <= month <= 12,
        1 <= day <= 31,
        0 <= second < 86_400,
    ensures
        stamp(year, month, day, second) == date_part(year, month, day) + ("T"@ + time_part(second)),
        date_part(year, month, day).len() == 10,
        stamp(year, month, day, second).len() == 20,
        has_stamp_form(stamp(year, month, day, second)),
{
    lemma_four_digits(year);
    lemma_two_digits(month);
    lemma_two_digits(day);
    lemma_two_digits(second / 3600);
    lemma_two_digits((second % 3600) / 60);
    lemma_two_digits(second % 60);
    reveal_strlit("-");
    reveal_strlit("T");
    reveal_strlit(":");
    reveal_strlit("Z");
    assert(stamp(year, month, day, second) =~= date_part(year, month, day) + ("T"@ + time_part(
        second,
    )));
}

/// The form of a timestamp: `YYYY-MM-DDTHH:MM:SSZ`.
pub open spec fn has_stamp_form(text: Seq<char>) -> bool {
    &&& text.len() == 20
    &&& text[4] == '-' && text[7] == '-' && text[10] == 'T'
    &&& text[13] == ':' && text[16] == ':' && text[19] == 'Z'
    &&& forall|i: int|
        0 <= i < 19 && i != 4 && i != 7 && i != 10 && i != 13 && i != 16 ==> '0' <= (
        #[trigger] text[i]) && text[i] <= '9'
}

proof fn lemma_dates_grow(y1: int, m1: int, d1: int, y2: int, m2: int, d2: int)
    requires
        1970 <= y1 < 10_000,
        1970 <= y2 < 10_000,
        1 <= m1 <= 12,
        1 <= m2 <= 12,
        1 <= d1 <= 31,
        1 <= d2 <= 31,
        y1 < y2 || y1 == y2 && (m1 < m2 || m1 == m2 && d1 < d2),
    ensures
        before(date_part(y1, m1, d1), date_part(y2, m2, d2)),
{
    lemma_four_digits(y1);
    lemma_four_digits(y2);
    lemma_two_digits(m1);
    lemma_two_digits(m2);
    let day1 = zero_padded(dec(d1 as nat), 2);
    let day2 = zero_padded(dec(d2 as nat), 2);
    let month1 = zero_padded(dec(m1 as nat), 2);
    let month2 = zero_padded(dec(m2 as nat), 2);
    let year1 = zero_padded(dec(y1 as nat), 4);
    let year2 = zero_padded(dec(y2 as nat), 4);
    let rest1 = month1 + ("-"@ + day1);
    let rest2 = month2 + ("-"@ + day2);
    if y1 < y2 {
        lemma_four_digits_grow(y1, y2);
        lemma_before_then(year1, year2, "-"@ + rest1, "-"@ + rest2);
    } else {
        if m1 < m2 {
            lemma_two_digits_grow(m1, m2);
            lemma_before_then(month1, month2, "-"@ + day1, "-"@ + day2);
        } else {
            lemma_two_digits_grow(d1, d2);
            lemma_before_behind("-"@, day1, day2);
            lemma_before_behind(month1, "-"@ + day1, "-"@ + day2);
        }
        lemma_before_behind("-"@, rest1, rest2);
        lemma_before_behind(year1, "-"@ + rest1, "-"@ + rest2);
    }
}

proof fn lemma_times_grow(a: int, b: int)
    requires
        0 <= a < b < 86_400,
    ensures
        before(time_part(a), time_part(b)),
{
    let h1 = a / 3600;
    let h2 = b / 3600;
    let m1 = (a % 3600) / 60;
    let m2 = (b % 3600) / 60;
    let s1 = a % 60;
    let s2 = b % 60;
    assert(a == 3600 * h1 + 60 * m1 + s1);
    assert(b == 3600 * h2 + 60 * m2 + s2);
    lemma_two_digits(h1);
    lemma_two_digits(h2);
    lemma_two_digits(m1);
    lemma_two_digits(m2);
    lemma_two_digits(s1);
    lemma_two_digits(s2);
    let hours1 = zero_padded(dec(h1 as nat), 2);
    let hours2 = zero_padded(dec(h2 as nat), 2);
    let minutes1 = zero_padded(dec(m1 as nat), 2);
    let minutes2 = zero_padded(dec(m2 as nat), 2);
    let seconds1 = zero_padded(dec(s1 as nat), 2);
    let seconds2 = zero_padded(dec(s2 as nat), 2);
    let rest1 = minutes1 + (":"@ + (seconds1 + "Z"@));
    let rest2 = minutes2 + (":"@ + (seconds2 + "Z"@));
    if h1 < h2 {
        lemma_two_digits_grow(h1, h2);
        lemma_before_then(hours1, hours2, ":"@ + rest1, ":"@ + rest2);
    } else {
        if m1 < m2 {
            lemma_two_digits_grow(m1, m2);
            lemma_before_then(
                minutes1,
                minutes2,
                ":"@ + (seconds1 + "Z"@),
                ":"@ + (seconds2 + "Z"@),
            );
        } else {
            lemma_two_digits_grow(s1, s2);
            lemma_before_then(seconds1, seconds2, "Z"@, "Z"@);
            lemma_before_behind(":"@, seconds1 + "Z"@, seconds2 + "Z"@);
            lemma_before_behind(minutes1, ":"@ + (seconds1 + "Z"@), ":"@ + (seconds2 + "Z"@));
        }
        lemma_before_behind(":"@, rest1, rest2);
        lemma_before_behind(hours1, ":"@ + rest1, ":"@ + rest2);
    }
}

proof fn lemma_date_is_early(days: int, year: int, month: int, day: int)
    requires
        is_date(days, year, month, day),
        days < 2_932_897,
    ensures
        year < 10_000,
{
    lemma_date_in_year(days, year, month, day);
    if year >= 10_000 {
        lemma_years_grow(10_000, year);
    }
}

/// Until the year 10000 a timestamp has twenty characters of one form.
pub proof fn law_stamps_have_one_form(secs: int, text: Seq<char>)
    requires
        0 <= secs < FIVE_DIGIT_YEARS,
        is_stamp(secs, text),
    ensures
        has_stamp_form(text),
{
    let (y, m, d) = choose|y: int, m: int, d: int|
        #![trigger is_date(secs / 86_400, y, m, d)]
        is_date(secs / 86_400, y, m, d) && text == stamp(y, m, d, secs % 86_400);
    lemma_date_is_early(secs / 86_400, y, m, d);
    lemma_parts(y, m, d, secs % 86_400);
}

/// The days of the months, January first, with `leap` days in a leap year.
pub open spec fn month_days(leap: int) -> Seq<int> {
    seq![31, 28 + leap, 31, 30, 31, 30, 31, 31, 30, 31, 30, 31]
}

/// Days follow each other: the first is the first of January 1970; behind a day
/// comes the next of its month, behind a month's last day the first of the next
/// month, and behind December's the first of January of the next year. A month
/// has its days, and February one more in every fourth year but for three of
/// four centuries.
pub proof fn law_days_follow_each_other(days: int, year: int, month: int, day: int)
    requires
        is_date(days, year, month, day),
    ensures
        is_date(0, 1970, 1, 1),
        ({
            let leap: int = if year % 400 == 0 || (year % 4 == 0 && year % 100 != 0) {
                1
            } else {
                0
            };
            let last = month_days(leap)[month - 1];
            &&& 1 <= day <= last
            &&& day < last ==> is_date(days + 1, year, month, day + 1)
            &&& day == last && month < 12 ==> is_date(days + 1, year, month + 1, 1)
            &&& day == last && month == 12 ==> is_date(days + 1, year + 1, 1, 1)
        }),
{
    lemma_year(year);
    lemma_months(year);
    reveal_with_fuel(month_start, 2);
    if day == days_in_month(year, month) && month == 12 {
        assert(month_start(year, 13) == month_start(year, 12) + 31);
        assert(month_start(year, 13) == days_in_year(year));
    }
}

proof fn lemma_digits_read(n: int)
    requires
        0 <= n < 100,
    ensures
        unsigned(zero_padded(dec(n as nat), 2)) == Some(n as u64),
        zero_padded(dec(n as nat), 2).len() == 2,
{
    lemma_two_digits(n);
    let t = zero_padded(dec(n as nat), 2);
    assert(t.drop_last() =~= seq![digit((n / 10) as nat)]);
    assert(t.drop_last().drop_last() =~= seq![]);
    reveal_with_fuel(crate::text::digits_value, 3);
}

proof fn lemma_year_reads(year: int)
    requires
        1000 <= year < 10_000,
    ensures
        unsigned(zero_padded(dec(year as nat), 4)) == Some(year as u64),
        zero_padded(dec(year as nat), 4).len() == 4,
{
    lemma_four_digits(year);
    law_a_written_number_reads_back(year as u64);
    assert(dec(year as nat).len() == 4) by {
        reveal_with_fuel(dec, 4);
    }
}

#[verifier::spinoff_prover]
#[verifier::rlimit(50)]
proof fn lemma_fields(year: int, month: int, day: int, second: int)
    requires
        1970 <= year < 10_000,
        1 <= month <= 12,
        1 <= day <= 31,
        0 <= second < 86_400,
    ensures
        ({
            let text = stamp(year, month, day, second);
            &&& unsigned(text.subrange(0, 4)) == Some(year as u64)
            &&& unsigned(text.subrange(5, 7)) == Some(month as u64)
            &&& unsigned(text.subrange(8, 10)) == Some(day as u64)
            &&& unsigned(text.subrange(11, 13)) == Some((second / 3600) as u64)
            &&& unsigned(text.subrange(14, 16)) == Some(((second % 3600) / 60) as u64)
            &&& unsigned(text.subrange(17, 19)) == Some((second % 60) as u64)
        }),
{
    let text = stamp(year, month, day, second);
    let y = zero_padded(dec(year as nat), 4);
    let mo = zero_padded(dec(month as nat), 2);
    let d = zero_padded(dec(day as nat), 2);
    let h = zero_padded(dec((second / 3600) as nat), 2);
    let m = zero_padded(dec(((second % 3600) / 60) as nat), 2);
    let s = zero_padded(dec((second % 60) as nat), 2);
    lemma_year_reads(year);
    lemma_digits_read(month);
    lemma_digits_read(day);
    lemma_digits_read(second / 3600);
    lemma_digits_read((second % 3600) / 60);
    lemma_digits_read(second % 60);
    reveal_strlit("-");
    reveal_strlit("T");
    reveal_strlit(":");
    reveal_strlit("Z");
    assert(text == y + "-"@ + mo + "-"@ + d + "T"@ + h + ":"@ + m + ":"@ + s + "Z"@);
    assert(text.subrange(0, 4) =~= y);
    assert(text.subrange(5, 7) =~= mo);
    assert(text.subrange(8, 10) =~= d);
    assert(text.subrange(11, 13) =~= h);
    assert(text.subrange(14, 16) =~= m);
    assert(text.subrange(17, 19) =~= s);
}

proof fn lemma_clock(second: int)
    requires
        0 <= second < 86_400,
    ensures
        0 <= second / 3600 < 24,
        0 <= (second % 3600) / 60 < 60,
        0 <= second % 60 < 60,
        (second / 3600) * 3600 + ((second % 3600) / 60) * 60 + second % 60 == second,
{
}

/// Until the year 10000 a timestamp reads back as its moment: its fields are the
/// day's date and the hours, minutes and seconds of the day.
#[verifier::spinoff_prover]
#[verifier::rlimit(60)]
pub proof fn law_a_stamp_reads_back(secs: int, text: Seq<char>, year: int, month: int, day: int)
    requires
        0 <= secs < FIVE_DIGIT_YEARS,
        is_stamp(secs, text),
        is_date(secs / 86_400, year, month, day),
    ensures
        unsigned(text.subrange(0, 4)) == Some(year as u64),
        unsigned(text.subrange(5, 7)) == Some(month as u64),
        unsigned(text.subrange(8, 10)) == Some(day as u64),
        match (
            unsigned(text.subrange(11, 13)),
            unsigned(text.subrange(14, 16)),
            unsigned(text.subrange(17, 19)),
        ) {
            (Some(h), Some(m), Some(s)) => m < 60 && s < 60 && h * 3600 + m * 60 + s == secs
                % 86_400,
            _ => false,
        },
{
    let (y, mo, d) = choose|y: int, m: int, d: int|
        #![trigger is_date(secs / 86_400, y, m, d)]
        is_date(secs / 86_400, y, m, d) && text == stamp(y, m, d, secs % 86_400);
    law_a_day_has_one_date(secs / 86_400, y, mo, d, year, month, day);
    lemma_date_is_early(secs / 86_400, year, month, day);
    let second = secs % 86_400;
    lemma_fields(year, month, day, second);
    lemma_clock(second);
}

/// Until the year 10000 a later moment's timestamp is the greater text, so
/// texts sort as the moments do.
pub proof fn law_later_stamps_are_greater(a: int, b: int, s: Seq<char>, t: Seq<char>)
    requires
        0 <= a < b < FIVE_DIGIT_YEARS,
        is_stamp(a, s),
        is_stamp(b, t),
    ensures
        before(s, t),
{
    let (y1, m1, d1) = choose|y: int, m: int, d: int|
        #![trigger is_date(a / 86_400, y, m, d)]
        is_date(a / 86_400, y, m, d) && s == stamp(y, m, d, a % 86_400);
    let (y2, m2, d2) = choose|y: int, m: int, d: int|
        #![trigger is_date(b / 86_400, y, m, d)]
        is_date(b / 86_400, y, m, d) && t == stamp(y, m, d, b % 86_400);
    let days1 = a / 86_400;
    let days2 = b / 86_400;
    lemma_date_is_early(days1, y1, m1, d1);
    lemma_date_is_early(days2, y2, m2, d2);
    lemma_parts(y1, m1, d1, a % 86_400);
    lemma_parts(y2, m2, d2, b % 86_400);
    let date1 = date_part(y1, m1, d1);
    let date2 = date_part(y2, m2, d2);
    let time1 = time_part(a % 86_400);
    let time2 = time_part(b % 86_400);
    if days1 == days2 {
        law_a_day_has_one_date(days1, y1, m1, d1, y2, m2, d2);
        lemma_times_grow(a % 86_400, b % 86_400);
        lemma_before_behind("T"@, time1, time2);
        lemma_before_behind(date1, "T"@ + time1, "T"@ + time2);
    } else {
        lemma_date_in_year(days1, y1, m1, d1);
        lemma_date_in_year(days2, y2, m2, d2);
        if y2 < y1 {
            lemma_years_grow(y2 + 1, y1);
        }
        if y1 == y2 && m2 < m1 {
            lemma_months_grow(y1, m2 + 1, m1);
        }
        lemma_dates_grow(y1, m1, d1, y2, m2, d2);
        lemma_before_then(date1, date2, "T"@ + time1, "T"@ + time2);
    }
}

/// Until the year 10000 a timestamp reads back: it names one second only.
pub proof fn law_a_stamp_names_one_second(a: int, b: int, text: Seq<char>)
    requires
        0 <= a < FIVE_DIGIT_YEARS,
        0 <= b < FIVE_DIGIT_YEARS,
        is_stamp(a, text),
        is_stamp(b, text),
    ensures
        a == b,
{
    law_key_order(text, text, text);
    if a < b {
        law_later_stamps_are_greater(a, b, text, text);
    }
    if b < a {
        law_later_stamps_are_greater(b, a, text, text);
    }
}

fn leap(year: u64) -> (out: bool)
    ensures
        out == is_leap(year as int),
{
    year % 4 == 0 && (year % 100 != 0 || year % 400 == 0)
}

fn year_length(year: u64) -> (out: u64)
    ensures
        out == days_in_year(year as int),
{
    if leap(year) {
        366
    } else {
        365
    }
}

fn month_length(year: u64, month: u64) -> (out: u64)
    ensures
        out == days_in_month(year as int, month as int),
{
    if month == 2 {
        if leap(year) {
            29
        } else {
            28
        }
    } else if month == 4 || month == 6 || month == 9 || month == 11 {
        30
    } else {
        31
    }
}

proof fn lemma_cycles(cycles: int)
    requires
        cycles >= 0,
    ensures
        year_start(1970 + 400 * cycles) == 146_097 * cycles,
    decreases cycles,
{
    if cycles > 0 {
        lemma_cycles(cycles - 1);
        lemma_year(1970 + 400 * (cycles - 1));
    }
}

/// The date of a day after 1970-01-01.
fn date_of(days: u64) -> (out: (u64, u64, u64))
    requires
        days <= 0x1_0000_0000_0000,
    ensures
        is_date(days as int, out.0 as int, out.1 as int, out.2 as int),
{
    let cycles: u64 = days / 146_097;
    let mut year: u64 = 1970 + 400 * cycles;
    let mut left: u64 = days % 146_097;
    proof {
        lemma_cycles(cycles as int);
    }
    while left >= year_length(year)
        invariant
            1970 <= year,
            year + left <= 0x4_0000_0000_0000,
            days == year_start(year as int) + left,
        decreases left,
    {
        proof {
            lemma_year(year as int);
        }
        left = left - year_length(year);
        year = year + 1;
    }
    let mut month: u64 = 1;
    proof {
        lemma_months(year as int);
    }
    while month < 12 && left >= month_length(year, month)
        invariant
            1 <= month <= 12,
            1970 <= year,
            days == year_start(year as int) + month_start(year as int, month as int) + left,
            month_start(year as int, month as int) + left < days_in_year(year as int),
        decreases 12 - month,
    {
        left = left - month_length(year, month);
        month = month + 1;
    }
    proof {
        lemma_months(year as int);
        if month == 12 {
            assert(month_start(year as int, 13) == month_start(year as int, 12) + 31);
        }
    }
    (year, month, left + 1)
}

/// A UTC RFC3339 timestamp from Unix seconds.
pub fn iso_from_secs(secs: u64) -> (out: String)
    ensures
        is_stamp(secs as int, out@),
{
    let (year, month, day) = date_of(secs / 86_400);
    let second: u64 = secs % 86_400;
    let mut out: String = dec_padded(year, 4);
    out.append("-");
    out.append(dec_padded(month, 2).as_str());
    out.append("-");
    out.append(dec_padded(day, 2).as_str());
    out.append("T");
    out.append(dec_padded(second / 3600, 2).as_str());
    out.append(":");
    out.append(dec_padded((second % 3600) / 60, 2).as_str());
    out.append(":");
    out.append(dec_padded(second % 60, 2).as_str());
    out.append("Z");
    assert(is_date(secs as int / 86_400, year as int, month as int, day as int));
    out
}

} // verus!
