//! Proleptic-Gregorian calendar arithmetic and UTC timestamp parsing.
//!
//! Instants are milliseconds relative to 1970-01-01T00:00:00Z. The civil
//! conversion uses the era/cycle decomposition of the Gregorian calendar
//! (146097 days per 400-year era).

use vstd::prelude::*;
use crate::text::digit_val;
use crate::text::digits_val;
use crate::text::is_digit;

verus! {

/// Milliseconds per day.
pub const MS_PER_DAY: i64 = 86_400_000;

/// Whether `y` is a Gregorian leap year.
pub open spec fn is_leap_year(y: int) -> bool {
    (y % 4 == 0 && y % 100 != 0) || y % 400 == 0
}

/// Days in month `m` of year `y` (`1 <= m <= 12`).
pub open spec fn days_in_month(y: int, m: int) -> int {
    if m == 2 {
        if is_leap_year(y) {
            29
        } else {
            28
        }
    } else if m == 4 || m == 6 || m == 9 || m == 11 {
        30
    } else {
        31
    }
}

/// Days since 1970-01-01 of the civil date `y-m-d`, for years 0 through
/// 9999. Decomposes the date into 400-year eras of 146097 days each, with
/// the year starting in March so leap days fall at the end.
pub open spec fn days_from_civil(y: int, m: int, d: int) -> int {
    let y2 = if m <= 2 {
        y - 1
    } else {
        y
    };
    let era = if y2 >= 0 {
        y2 / 400
    } else {
        -1
    };
    let yoe = y2 - era * 400;
    let mp = (m + 9) % 12;
    let doy = (153 * mp + 2) / 5 + d - 1;
    let doe = yoe * 365 + yoe / 4 - yoe / 100 + doy;
    era * 146097 + doe - 719468
}

/// UTC milliseconds of `y-m-d h:mi:s.ms`.
pub open spec fn civil_to_ms(y: int, m: int, d: int, h: int, mi: int, s: int, ms: int) -> int {
    days_from_civil(y, m, d) * 86_400_000 + h * 3_600_000 + mi * 60_000 + s * 1000 + ms
}

/// Executable counterpart of [`is_leap_year`].
pub fn leap_year(y: i64) -> (r: bool)
    requires
        0 <= y <= 9999,
    ensures
        r == is_leap_year(y as int),
{
    (y % 4 == 0 && y % 100 != 0) || y % 400 == 0
}

/// Executable counterpart of [`days_in_month`].
pub fn month_days(y: i64, m: i64) -> (r: i64)
    requires
        0 <= y <= 9999,
        1 <= m <= 12,
    ensures
        r == days_in_month(y as int, m as int),
{
    if m == 2 {
        if leap_year(y) {
            29
        } else {
            28
        }
    } else if m == 4 || m == 6 || m == 9 || m == 11 {
        30
    } else {
        31
    }
}

/// Executable counterpart of [`days_from_civil`].
pub fn civil_days(y: i64, m: i64, d: i64) -> (r: i64)
    requires
        0 <= y <= 9999,
        1 <= m <= 12,
        1 <= d <= 31,
    ensures
        r == days_from_civil(y as int, m as int, d as int),
{
    let y2: i64 = if m <= 2 {
        y - 1
    } else {
        y
    };
    let era: i64 = if y2 >= 0 {
        y2 / 400
    } else {
        -1
    };
    let yoe: i64 = y2 - era * 400;
    let mp: i64 = (m + 9) % 12;
    let doy: i64 = (153 * mp + 2) / 5 + d - 1;
    let doe: i64 = yoe * 365 + yoe / 4 - yoe / 100 + doy;
    era * 146097 + doe - 719468
}

/// UTC milliseconds of a civil date and time of day.
pub fn timestamp_from_ymd_hms_ms(y: i64, m: i64, d: i64, h: i64, mi: i64, s: i64, ms: i64) -> (r:
    i64)
    requires
        0 <= y <= 9999,
        1 <= m <= 12,
        1 <= d <= 31,
        0 <= h <= 23,
        0 <= mi <= 59,
        0 <= s <= 59,
        0 <= ms <= 999,
    ensures
        r == civil_to_ms(y as int, m as int, d as int, h as int, mi as int, s as int, ms as int),
{
    civil_days(y, m, d) * 86_400_000 + h * 3_600_000 + mi * 60_000 + s * 1000 + ms
}


// ── Serialized UTC timestamp parsing ────────────────────────────────────

/// `k` ASCII digits stand at offset `i` of `s`.
pub open spec fn digits_at(s: Seq<char>, i: int, k: int) -> bool {
    0 <= i && i + k <= s.len() && forall|j: int| i <= j < i + k ==> is_digit(#[trigger] s[j])
}

/// Value of the `k` digits at offset `i`.
pub open spec fn num_at(s: Seq<char>, i: int, k: int) -> nat {
    digits_val(s.subrange(i, i + k))
}

/// First index at or after `i` that does not hold a digit.
pub open spec fn skip_digits(s: Seq<char>, i: int) -> int
    decreases s.len() - i,
{
    if 0 <= i < s.len() && is_digit(s[i]) {
        skip_digits(s, i + 1)
    } else {
        i
    }
}

/// The fixed `YYYY-MM-DDTHH:MM:SS` prefix of a serialized timestamp.
pub open spec fn date_time_shape(s: Seq<char>) -> bool {
    &&& s.len() >= 20
    &&& digits_at(s, 0, 4)
    &&& s[4] == '-'
    &&& digits_at(s, 5, 2)
    &&& s[7] == '-'
    &&& digits_at(s, 8, 2)
    &&& s[10] == 'T'
    &&& digits_at(s, 11, 2)
    &&& s[13] == ':'
    &&& digits_at(s, 14, 2)
    &&& s[16] == ':'
    &&& digits_at(s, 17, 2)
}

/// End of the optional fractional-seconds run (which starts with a dot at
/// offset 19).
pub open spec fn frac_end(s: Seq<char>) -> int {
    if s.len() > 19 && s[19] == '.' {
        skip_digits(s, 20)
    } else {
        19
    }
}

/// Milliseconds encoded by the fractional digits: the first three digits,
/// right-padded with zeros; further digits only add precision we drop.
pub open spec fn frac_ms(s: Seq<char>) -> int {
    let fe = frac_end(s);
    if fe == 19 {
        0
    } else if fe >= 23 {
        num_at(s, 20, 3) as int
    } else if fe == 22 {
        (num_at(s, 20, 2) * 10) as int
    } else {
        (num_at(s, 20, 1) * 100) as int
    }
}

/// The timezone offset in minutes given by the suffix after the seconds
/// (and fraction): `Z`, or `+HH:MM` / `-HH:MM`.
pub open spec fn tz_offset_min(s: Seq<char>) -> Option<int> {
    let p = frac_end(s);
    if p == s.len() - 1 && s[p] == 'Z' {
        Some(0int)
    } else if p + 6 == s.len() && (s[p] == '+' || s[p] == '-') && digits_at(s, p + 1, 2) && s[p
        + 3] == ':' && digits_at(s, p + 4, 2) && num_at(s, p + 1, 2) <= 23 && num_at(
        s,
        p + 4,
        2,
    ) <= 59 {
        let m = num_at(s, p + 1, 2) * 60 + num_at(s, p + 4, 2);
        if s[p] == '+' {
            Some(m as int)
        } else {
            Some(-(m as int))
        }
    } else {
        None
    }
}

/// UTC milliseconds denoted by a serialized timestamp
/// `YYYY-MM-DDTHH:MM:SS[.fff...](Z|±HH:MM)`, or `None` where the text does
/// not have that shape or names an invalid date or time of day.
pub open spec fn parse_timestamp_spec(s: Seq<char>) -> Option<i64> {
    if !date_time_shape(s) {
        None
    } else if s.len() > 19 && s[19] == '.' && frac_end(s) == 20 {
        None
    } else {
        let y = num_at(s, 0, 4) as int;
        let mo = num_at(s, 5, 2) as int;
        let d = num_at(s, 8, 2) as int;
        let h = num_at(s, 11, 2) as int;
        let mi = num_at(s, 14, 2) as int;
        let sec = num_at(s, 17, 2) as int;
        if 1 <= mo <= 12 && 1 <= d <= days_in_month(y, mo) && h <= 23 && mi <= 59 && sec <= 59 {
            match tz_offset_min(s) {
                Some(off) => Some(
                    (civil_to_ms(y, mo, d, h, mi, sec, frac_ms(s)) - off * 60_000) as i64,
                ),
                None => None,
            }
        } else {
            None
        }
    }
}

/// Numeric value of a digit character.
fn digit_value(c: char) -> (r: u32)
    requires
        is_digit(c),
    ensures
        r == digit_val(c),
        r <= 9,
{
    ((c as u8) - 48) as u32
}

fn is_digit_char(c: char) -> (r: bool)
    ensures
        r == is_digit(c),
{
    '0' <= c && c <= '9'
}

proof fn lemma_digits_val_unfold(s: Seq<char>, i: int, k: int)
    requires
        0 <= i,
        1 <= k,
        i + k <= s.len(),
    ensures
        digits_val(s.subrange(i, i + k)) == digits_val(s.subrange(i, i + k - 1)) * 10 + digit_val(
            s[i + k - 1],
        ),
{
    assert(s.subrange(i, i + k).drop_last() =~= s.subrange(i, i + k - 1));
    assert(s.subrange(i, i + k).last() == s[i + k - 1]);
}

/// Read `k` digits (`1 <= k <= 4`) at offset `i`; `None` where any of the
/// `k` characters is not a digit.
pub fn read_digits(v: &Vec<char>, i: usize, k: usize) -> (r: Option<u32>)
    requires
        1 <= k <= 4,
        i + k <= v@.len(),
    ensures
        r is Some ==> digits_at(v@, i as int, k as int) && r->Some_0 == num_at(
            v@,
            i as int,
            k as int,
        ) && r->Some_0 <= 9999,
        r is Some && k <= 1 ==> r->Some_0 <= 9,
        r is Some && k <= 2 ==> r->Some_0 <= 99,
        r is Some && k <= 3 ==> r->Some_0 <= 999,
        r is None ==> !digits_at(v@, i as int, k as int),
{
    let vlen: usize = v.len();
    let mut acc: u32 = 0;
    let mut j: usize = 0;
    proof {
        assert(v@.subrange(i as int, i as int) =~= Seq::<char>::empty());
    }
    while j < k
        invariant
            j <= k <= 4,
            i + k <= v@.len(),
            v@.len() == vlen,
            forall|q: int| i <= q < i + j ==> is_digit(#[trigger] v@[q]),
            acc == digits_val(v@.subrange(i as int, i as int + j as int)),
            j <= 1 ==> acc <= 9,
            j <= 2 ==> acc <= 99,
            j <= 3 ==> acc <= 999,
            acc <= 9999,
        decreases k - j,
    {
        let c = v[i + j];
        if !is_digit_char(c) {
            return None;
        }
        proof {
            lemma_digits_val_unfold(v@, i as int, j as int + 1);
        }
        acc = acc * 10 + digit_value(c);
        j = j + 1;
    }
    Some(acc)
}

/// Parse a serialized timestamp (see [`parse_timestamp_spec`]) into UTC
/// milliseconds.
pub fn parse_timestamp_chars(v: &Vec<char>) -> (r: Option<i64>)
    ensures
        r == parse_timestamp_spec(v@),
{
    if v.len() < 20 {
        return None;
    }
    if !(v[4] == '-' && v[7] == '-' && v[10] == 'T' && v[13] == ':' && v[16] == ':') {
        return None;
    }
    let y = match read_digits(v, 0, 4) {
        Some(n) => n,
        None => {
            return None;
        },
    };
    let mo = match read_digits(v, 5, 2) {
        Some(n) => n,
        None => {
            return None;
        },
    };
    let d = match read_digits(v, 8, 2) {
        Some(n) => n,
        None => {
            return None;
        },
    };
    let h = match read_digits(v, 11, 2) {
        Some(n) => n,
        None => {
            return None;
        },
    };
    let mi = match read_digits(v, 14, 2) {
        Some(n) => n,
        None => {
            return None;
        },
    };
    let sec = match read_digits(v, 17, 2) {
        Some(n) => n,
        None => {
            return None;
        },
    };
    // Fractional seconds.
    let mut fe: usize = 19;
    if v[19] == '.' {
        fe = 20;
        while fe < v.len() && is_digit_char(v[fe])
            invariant
                20 <= fe <= v@.len(),
                v@.len() > 19 && v@[19] == '.',
                forall|q: int| 20 <= q < fe ==> is_digit(#[trigger] v@[q]),
                skip_digits(v@, 20) == skip_digits(v@, fe as int),
            decreases v@.len() - fe,
        {
            fe = fe + 1;
        }
        proof {
            assert(skip_digits(v@, fe as int) == fe as int);
            assert(frac_end(v@) == fe as int);
        }
        if fe == 20 {
            return None;
        }
    } else {
        proof {
            assert(frac_end(v@) == 19);
        }
    }
    let fms: u32 = if fe == 19 {
        0
    } else if fe >= 23 {
        match read_digits(v, 20, 3) {
            Some(n) => n,
            None => {
                return None;
            },
        }
    } else if fe == 22 {
        match read_digits(v, 20, 2) {
            Some(n) => n * 10,
            None => {
                return None;
            },
        }
    } else {
        match read_digits(v, 20, 1) {
            Some(n) => n * 100,
            None => {
                return None;
            },
        }
    };
    proof {
        assert(fms == frac_ms(v@));
    }
    // Timezone suffix.
    proof {
        assert(fe <= v@.len());
    }
    let off_min: i64 = if fe == v.len() - 1 && v[fe] == 'Z' {
        0
    } else if v.len() - fe == 6 && (v[fe] == '+' || v[fe] == '-') && v[fe + 3] == ':' {
        let oh = match read_digits(v, fe + 1, 2) {
            Some(n) => n,
            None => {
                return None;
            },
        };
        let om = match read_digits(v, fe + 4, 2) {
            Some(n) => n,
            None => {
                return None;
            },
        };
        if !(oh <= 23 && om <= 59) {
            return None;
        }
        let m: i64 = (oh as i64) * 60 + (om as i64);
        if v[fe] == '+' {
            m
        } else {
            -m
        }
    } else {
        return None;
    };
    proof {
        assert(tz_offset_min(v@) == Some(off_min as int));
    }
    // Validity of the civil fields.
    if !(1 <= mo && mo <= 12) {
        return None;
    }
    let md = month_days(y as i64, mo as i64);
    if !(1 <= d && (d as i64) <= md) {
        return None;
    }
    if !(h <= 23 && mi <= 59 && sec <= 59) {
        return None;
    }
    let ms = timestamp_from_ymd_hms_ms(
        y as i64,
        mo as i64,
        d as i64,
        h as i64,
        mi as i64,
        sec as i64,
        fms as i64,
    );
    Some(ms - off_min * 60_000)
}

} // verus!
