//! Time input parsing and display formatting.
//!
//! The grammar of user-typed date/time text and of serialized event
//! timestamps is parsed by verified code ([`crate::calendar`]); only the
//! local-timezone interpretation and local-time display go through chrono.

use vstd::prelude::*;
use crate::calendar::days_in_month;
use crate::calendar::digits_at;
use crate::calendar::num_at;
use crate::calendar::parse_timestamp_spec;
use crate::calendar::parse_timestamp_chars;
use crate::calendar::skip_digits;
use crate::text::chars_of;
use crate::text::digits_val;
use crate::text::is_digit;
use crate::text::trim_chars;
use crate::text::trim_spec;
use crate::text::dec_of;
use crate::text::u64_to_dec;
use crate::text::string_from_chars;

verus! {

// ── Serialized event timestamps ─────────────────────────────────────────

/// Parse a serialized UTC event timestamp such as
/// `2024-01-15T10:23:45.1234567Z` into UTC milliseconds; fractional
/// seconds of any precision are accepted and truncated to milliseconds.
pub fn parse_system_time(s: &str) -> (r: Option<i64>)
    ensures
        r == parse_timestamp_spec(s@),
{
    let v = chars_of(s);
    parse_timestamp_chars(&v)
}

// ── User-typed date/time input ──────────────────────────────────────────

/// Range validity of civil date/time fields.
pub open spec fn fields_valid(y: int, mo: int, d: int, h: int, mi: int, sec: int) -> bool {
    1 <= mo <= 12 && 1 <= d <= days_in_month(y, mo) && 0 <= h <= 23 && 0 <= mi <= 59 && 0 <= sec
        <= 59
}

/// The civil fields denoted by user input: `YYYY-M-D`, `YYYY-M-D H:M` or
/// `YYYY-M-D H:M:S`, with one or two digits for each field but the year.
/// Omitted time-of-day fields read as zero (midnight).
pub open spec fn local_dt_parts(s: Seq<char>) -> Option<(int, int, int, int, int, int)> {
    if !(s.len() >= 5 && digits_at(s, 0, 4) && s[4] == '-') {
        None
    } else {
        let me = skip_digits(s, 5);
        if !(5 < me && me <= 7 && me < s.len() && s[me] == '-') {
            None
        } else {
            let ds = me + 1;
            let de = skip_digits(s, ds);
            if !(ds < de && de <= ds + 2) {
                None
            } else {
                let y = num_at(s, 0, 4) as int;
                let mo = digits_val(s.subrange(5, me)) as int;
                let d = digits_val(s.subrange(ds, de)) as int;
                if de == s.len() {
                    if fields_valid(y, mo, d, 0, 0, 0) {
                        Some((y, mo, d, 0int, 0int, 0int))
                    } else {
                        None
                    }
                } else if s[de] == ' ' {
                    local_time_parts(s, de + 1, y, mo, d)
                } else {
                    None
                }
            }
        }
    }
}

/// The `H:M[:S]` tail of user input, starting at offset `hs`.
pub open spec fn local_time_parts(s: Seq<char>, hs: int, y: int, mo: int, d: int) -> Option<
    (int, int, int, int, int, int),
> {
    let he = skip_digits(s, hs);
    if !(hs < he && he <= hs + 2 && he < s.len() && s[he] == ':') {
        None
    } else {
        let ms = he + 1;
        let me = skip_digits(s, ms);
        if !(ms < me && me <= ms + 2) {
            None
        } else {
            let h = digits_val(s.subrange(hs, he)) as int;
            let mi = digits_val(s.subrange(ms, me)) as int;
            if me == s.len() {
                if fields_valid(y, mo, d, h, mi, 0) {
                    Some((y, mo, d, h, mi, 0int))
                } else {
                    None
                }
            } else if s[me] == ':' {
                let ss = me + 1;
                let se = skip_digits(s, ss);
                if !(ss < se && se <= ss + 2 && se == s.len()) {
                    None
                } else {
                    let sec = digits_val(s.subrange(ss, se)) as int;
                    if fields_valid(y, mo, d, h, mi, sec) {
                        Some((y, mo, d, h, mi, sec))
                    } else {
                        None
                    }
                }
            } else {
                None
            }
        }
    }
}

/// First index at or after `i` without a digit; executable counterpart of
/// [`skip_digits`].
fn digits_end(v: &Vec<char>, i: usize) -> (r: usize)
    requires
        i <= v@.len(),
    ensures
        r == skip_digits(v@, i as int),
        i <= r <= v@.len(),
        forall|q: int| i <= q < r ==> is_digit(#[trigger] v@[q]),
{
    let mut e: usize = i;
    while e < v.len() && '0' <= v[e] && v[e] <= '9'
        invariant
            i <= e <= v@.len(),
            skip_digits(v@, i as int) == skip_digits(v@, e as int),
            forall|q: int| i <= q < e ==> is_digit(#[trigger] v@[q]),
        decreases v@.len() - e,
    {
        e = e + 1;
    }
    e
}

fn num_of_run(v: &Vec<char>, i: usize, e: usize) -> (r: u32)
    requires
        i < e <= v@.len(),
        e - i <= 4,
        forall|q: int| i <= q < e ==> is_digit(#[trigger] v@[q]),
    ensures
        r == digits_val(v@.subrange(i as int, e as int)),
        r <= 9999,
{
    match crate::calendar::read_digits(v, i, e - i) {
        Some(n) => n,
        None => 0,  // cannot happen: the run holds only digits
    }
}

/// Parse user-typed local date/time text into its civil fields.
pub fn parse_local_parts(v: &Vec<char>) -> (r: Option<(i64, i64, i64, i64, i64, i64)>)
    ensures
        match r {
            Some(p) => local_dt_parts(v@) == Some(
                (p.0 as int, p.1 as int, p.2 as int, p.3 as int, p.4 as int, p.5 as int),
            ),
            None => local_dt_parts(v@) is None,
        },
{
    if v.len() < 5 {
        return None;
    }
    let y = match crate::calendar::read_digits(v, 0, 4) {
        Some(n) => n,
        None => {
            return None;
        },
    };
    if v[4] != '-' {
        return None;
    }
    let me = digits_end(v, 5);
    if !(5 < me && me <= 7 && me < v.len()) {
        return None;
    }
    if v[me] != '-' {
        return None;
    }
    let mo = num_of_run(v, 5, me);
    let ds = me + 1;
    let de = digits_end(v, ds);
    if !(ds < de && de <= ds + 2) {
        return None;
    }
    let d = num_of_run(v, ds, de);
    let (h, mi, sec): (u32, u32, u32) = if de == v.len() {
        (0, 0, 0)
    } else if v[de] == ' ' {
        let hs = de + 1;
        let he = digits_end(v, hs);
        if !(hs < he && he <= hs + 2 && he < v.len()) {
            return None;
        }
        if v[he] != ':' {
            return None;
        }
        let h = num_of_run(v, hs, he);
        let ms = he + 1;
        let me2 = digits_end(v, ms);
        if !(ms < me2 && me2 <= ms + 2) {
            return None;
        }
        let mi = num_of_run(v, ms, me2);
        if me2 == v.len() {
            (h, mi, 0)
        } else if v[me2] == ':' {
            let ss = me2 + 1;
            let se = digits_end(v, ss);
            if !(ss < se && se <= ss + 2 && se == v.len()) {
                return None;
            }
            let sec = num_of_run(v, ss, se);
            (h, mi, sec)
        } else {
            return None;
        }
    } else {
        return None;
    };
    if !(1 <= mo && mo <= 12) {
        return None;
    }
    let md = crate::calendar::month_days(y as i64, mo as i64);
    if !(1 <= d && (d as i64) <= md) {
        return None;
    }
    if !(h <= 23 && mi <= 59 && sec <= 59) {
        return None;
    }
    Some((y as i64, mo as i64, d as i64, h as i64, mi as i64, sec as i64))
}

/// Parse user-typed date/time text, interpreted as local wall-clock time,
/// into UTC milliseconds. Text that does not parse as
/// `YYYY-M-D[ H:M[:S]]` (after trimming) gives `None`; for text that does,
/// the local timezone's interpretation decides, so a civil time skipped by
/// a clock change may also give `None`.
pub fn parse_datetime_input(input: &str) -> (r: Option<i64>)
    ensures
        local_dt_parts(trim_spec(input@)) is None ==> r is None,
        r is Some ==> local_dt_parts(trim_spec(input@)) is Some,
{
    let chars = chars_of(input);
    let trimmed = trim_chars(&chars);
    match parse_local_parts(&trimmed) {
        Some((y, mo, d, h, mi, sec)) => local_parts_to_utc_ms(y, mo, d, h, mi, sec),
        None => None,
    }
}

// ── Elapsed-time display ────────────────────────────────────────────────

/// Display text for an elapsed duration of `ms` milliseconds:
/// `N.0ms` under ten milliseconds, tenths of seconds under a minute,
/// tenths of minutes beyond, each rounded to the nearest tenth.
pub open spec fn format_duration_spec(ms: u64) -> Seq<char> {
    if ms < 10 {
        dec_of(ms as nat) + ".0ms"@
    } else if ms < 60_000 {
        let t = (ms + 50) / 100;
        dec_of((t / 10) as nat) + "."@ + dec_of((t % 10) as nat) + "s"@
    } else {
        let t = (ms + 3000) / 6000;
        dec_of((t / 10) as nat) + "."@ + dec_of((t % 10) as nat) + "m"@
    }
}

/// Render an elapsed duration in milliseconds for the status bar.
pub fn format_duration(ms: u64) -> (r: String)
    ensures
        r@ == format_duration_spec(ms),
{
    if ms < 10 {
        let mut s = string_from_chars(&u64_to_dec(ms));
        s.append(".0ms");
        s
    } else if ms < 60_000 {
        let t = (ms + 50) / 100;
        let mut s = string_from_chars(&u64_to_dec(t / 10));
        s.append(".");
        let tenth = string_from_chars(&u64_to_dec(t % 10));
        s.append(tenth.as_str());
        s.append("s");
        s
    } else {
        let t: u64 = (((ms as u128) + 3000) / 6000) as u64;
        proof {
            vstd::arithmetic::div_mod::lemma_div_is_ordered(
                ms as int + 3000,
                u64::MAX as int + 3000,
                6000,
            );
            assert(t == (ms + 3000) / 6000);
        }
        let mut s = string_from_chars(&u64_to_dec(t / 10));
        s.append(".");
        let tenth = string_from_chars(&u64_to_dec(t % 10));
        s.append(tenth.as_str());
        s.append("m");
        s
    }
}

// ── Local-time conversions through chrono ───────────────────────────────

/// Relies on `chrono::TimeZone::from_local_datetime` (with
/// `NaiveDate::from_ymd_opt` / `and_hms_opt`): the UTC milliseconds of the
/// given civil fields read as local wall-clock time, or `None` where the
/// local calendar rejects them. The result depends on the machine's
/// timezone.
#[verifier::external_body]
pub(crate) fn local_parts_to_utc_ms(y: i64, mo: i64, d: i64, h: i64, mi: i64, sec: i64) -> (r: Option<
    i64,
>) {
    let date = chrono::NaiveDate::from_ymd_opt(y as i32, mo as u32, d as u32)?;
    let naive = date.and_hms_opt(h as u32, mi as u32, sec as u32)?;
    let local = chrono::TimeZone::from_local_datetime(&chrono::Local, &naive).earliest()?;
    Some(local.timestamp_millis())
}

/// What formatting a UTC instant as `%Y-%m-%dT%H:%M:%S%.3fZ` returns: a
/// function of the instant alone.
pub uninterp spec fn iso_of(ms: i64) -> Seq<char>;

/// Relies on `chrono::DateTime::<Utc>::from_timestamp_millis` and
/// `format("%Y-%m-%dT%H:%M:%S%.3fZ")`: the ISO-8601 UTC rendering of the
/// instant, a function of the instant alone (an out-of-range instant
/// renders as the empty string).
#[verifier::external_body]
pub(crate) fn utc_ms_to_iso8601(ms: i64) -> (r: String)
    ensures
        r@ == iso_of(ms),
{
    match chrono::DateTime::<chrono::Utc>::from_timestamp_millis(ms) {
        Some(dt) => dt.format("%Y-%m-%dT%H:%M:%S%.3fZ").to_string(),
        None => String::new(),
    }
}

/// Relies on `chrono::DateTime::with_timezone(&Local)` and
/// `format("%Y-%m-%d %H:%M:%S")`: the compact local-time rendering used in
/// table rows. The result depends on the machine's timezone.
#[verifier::external_body]
pub fn format_table_timestamp(ms: i64) -> (r: String) {
    match chrono::DateTime::<chrono::Utc>::from_timestamp_millis(ms) {
        Some(dt) => dt.with_timezone(&chrono::Local).format("%Y-%m-%d %H:%M:%S").to_string(),
        None => String::new(),
    }
}

/// Relies on `chrono::DateTime::with_timezone(&Local)` and
/// `format("%Y-%m-%d %H:%M:%S%.3f %z")`: the full-precision local-time
/// rendering used in the detail panel. Depends on the machine's timezone.
#[verifier::external_body]
pub fn format_detail_timestamp(ms: i64) -> (r: String) {
    match chrono::DateTime::<chrono::Utc>::from_timestamp_millis(ms) {
        Some(dt) => dt.with_timezone(&chrono::Local).format("%Y-%m-%d %H:%M:%S%.3f %z").to_string(),
        None => String::new(),
    }
}

/// Relies on `chrono::Utc::now`: the current UTC instant in milliseconds.
#[verifier::external_body]
pub(crate) fn now_utc_ms() -> (r: i64) {
    chrono::Utc::now().timestamp_millis()
}

/// Relies on `chrono::Local::now` and
/// `chrono::TimeZone::from_local_datetime`: the UTC milliseconds of local
/// midnight today, or `None` where a clock change skips it. Depends on the
/// machine's timezone and clock.
#[verifier::external_body]
pub(crate) fn local_today_midnight_utc_ms() -> (r: Option<i64>) {
    let naive = chrono::Local::now().date_naive().and_hms_opt(0, 0, 0)?;
    let local = chrono::TimeZone::from_local_datetime(&chrono::Local, &naive).earliest()?;
    Some(local.timestamp_millis())
}

/// Relies on `chrono::DateTime::with_timezone(&Local)` and
/// `format("%H:%M")`: the local hour label used by the histogram. Depends
/// on the machine's timezone.
#[verifier::external_body]
pub(crate) fn local_hour_label(ms: i64) -> (r: String) {
    match chrono::DateTime::<chrono::Utc>::from_timestamp_millis(ms) {
        Some(dt) => dt.with_timezone(&chrono::Local).format("%H:%M").to_string(),
        None => String::new(),
    }
}

} // verus!
