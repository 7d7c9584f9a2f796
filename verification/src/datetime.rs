//! Date and time parsing and the canonical ANB datetime string.
//!
//! Dates are accepted as `YYYY-MM-DD`, `DD/MM/YYYY` or `YYYYMMDD` and checked
//! against the Gregorian calendar; times as `HH:MM[:SS[.fff]]` or `h:MM AM/PM`
//! with hours 0-23 and minutes/seconds 0-59. The output form is
//! `YYYY-MM-DDTHH:MM:SS.000`.
use vstd::prelude::*;

use crate::text::{
    all_digits, chars_of, find_last, parse_i64, parse_i64_chars, parse_unsigned,
    parse_unsigned_range, push_char, push_zpad, slice_chars, split_chars, split_seq, to_uppercase_chars,
    trim, trim_chars, uppercase, zpad,
};

verus! {

// ── Calendar facts from chrono ──────────────────────────────────────────────

pub open spec fn is_leap_year(y: int) -> bool {
    (y % 4 == 0 && y % 100 != 0) || y % 400 == 0
}

pub open spec fn days_in_month(y: int, m: int) -> int {
    if m == 2 {
        if is_leap_year(y) {
            29
        } else {
            28
        }
    } else if m == 4 || m == 6 || m == 9 || m == 11 {
        30
    } else {
        31
    }
}

/// A day that exists in the proleptic Gregorian calendar, within the years
/// chrono's `NaiveDate` represents (-262143 ..= 262142).
pub open spec fn calendar_date(y: int, m: int, d: int) -> bool {
    &&& -262143 <= y <= 262142
    &&& 1 <= m <= 12
    &&& 1 <= d <= days_in_month(y, m)
}

/// Calls `chrono::NaiveDate::from_ymd_opt`, whose documentation says it
/// returns `None` exactly when the calendar day does not exist, the month or
/// day is invalid, or the year is outside `NaiveDate`'s range; the contract
/// claims the result is `Some` exactly for such days.
#[verifier::external_body]
fn calendar_date_exists(y: i32, m: u32, d: u32) -> (r: bool)
    ensures
        r == calendar_date(y as int, m as int, d as int),
{
    chrono::NaiveDate::from_ymd_opt(y, m, d).is_some()
}

/// Calls `chrono::NaiveTime::from_hms_opt`, which (by its documentation and
/// its source) returns `None` exactly when the hour is 24 or more or the
/// minute or second is 60 or more; the contract claims that.
#[verifier::external_body]
fn time_of_day_exists(h: u32, m: u32, s: u32) -> (r: bool)
    ensures
        r == (h < 24 && m < 60 && s < 60),
{
    chrono::NaiveTime::from_hms_opt(h, m, s).is_some()
}

// ── Dates ───────────────────────────────────────────────────────────────────

/// Year, month, day from three textual fields, each parsed as `str::parse`
/// does (`i64` year, `u32` month and day).
pub open spec fn ymd_of(y: Seq<char>, m: Seq<char>, d: Seq<char>) -> Option<(i64, u32, u32)> {
    match (parse_i64(y), parse_unsigned(m, 0xffff_ffff), parse_unsigned(d, 0xffff_ffff)) {
        (Some(yv), Some(mv), Some(dv)) => Some((yv as i64, mv as u32, dv as u32)),
        _ => None,
    }
}

/// The `(year, month, day)` a date string spells, before the calendar check:
/// `Y-M-D` when it holds a `-`, `D/M/Y` when it holds a `/`, else eight
/// digits `YYYYMMDD`.
pub open spec fn date_fields(s: Seq<char>) -> Option<(i64, u32, u32)> {
    let t = trim(s);
    if t.len() == 0 {
        None
    } else if t.contains('-') {
        let p = split_seq(t, '-');
        if p.len() != 3 {
            None
        } else {
            ymd_of(p[0], p[1], p[2])
        }
    } else if t.contains('/') {
        let p = split_seq(t, '/');
        if p.len() != 3 {
            None
        } else {
            ymd_of(p[2], p[1], p[0])
        }
    } else if t.len() == 8 && all_digits(t) {
        ymd_of(t.subrange(0, 4), t.subrange(4, 6), t.subrange(6, 8))
    } else {
        None
    }
}

/// What [`parse_date`] returns: the fields of a real calendar day.
pub open spec fn date_value(s: Seq<char>) -> Option<(i64, u32, u32)> {
    match date_fields(s) {
        Some((y, m, d)) => if i32::MIN <= y <= i32::MAX && calendar_date(y as int, m as int, d as int) {
            Some((y, m, d))
        } else {
            None
        },
        None => None,
    }
}

fn contains_char(v: &Vec<char>, c: char) -> (r: bool)
    ensures
        r == v@.contains(c),
{
    let n = v.len();
    for i in 0..n
        invariant
            n == v@.len(),
            forall|k: int| 0 <= k < i ==> v@[k] != c,
    {
        if v[i] == c {
            return true;
        }
    }
    false
}

fn ymd_from(y: &Vec<char>, m: &Vec<char>, d: &Vec<char>) -> (r: Option<(i64, u32, u32)>)
    ensures
        r == ymd_of(y@, m@, d@),
{
    assert(m@.subrange(0, m@.len() as int) =~= m@);
    assert(d@.subrange(0, d@.len() as int) =~= d@);
    let yv = parse_i64_chars(y);
    let mv = parse_unsigned_range(m, 0, m.len(), 0xffff_ffff);
    let dv = parse_unsigned_range(d, 0, d.len(), 0xffff_ffff);
    match (yv, mv, dv) {
        (Some(a), Some(b), Some(c)) => Some((a, b as u32, c as u32)),
        _ => None,
    }
}

fn date_fields_of(s: &str) -> (r: Option<(i64, u32, u32)>)
    ensures
        r == date_fields(s@),
{
    let v = chars_of(s);
    let t = trim_chars(&v);
    if t.len() == 0 {
        return None;
    }
    if contains_char(&t, '-') {
        let p = split_chars(&t, '-');
        if p.len() != 3 {
            return None;
        }
        return ymd_from(&p[0], &p[1], &p[2]);
    }
    if contains_char(&t, '/') {
        let p = split_chars(&t, '/');
        if p.len() != 3 {
            return None;
        }
        return ymd_from(&p[2], &p[1], &p[0]);
    }
    if t.len() == 8 {
        let mut all = true;
        let mut i: usize = 0;
        while i < 8
            invariant
                t@.len() == 8,
                i <= 8,
                all == all_digits(t@.take(i as int)),
            decreases 8 - i,
        {
            let c = t[i];
            assert(t@.take(i + 1) =~= t@.take(i as int).push(c));
            assert(all_digits(t@.take(i + 1)) == (all_digits(t@.take(i as int)) && '0' <= c && c
                <= '9')) by {
                if all_digits(t@.take(i as int)) && '0' <= c && c <= '9' {
                    assert forall|k: int| 0 <= k < i + 1 implies crate::text::is_digit(
                        #[trigger] t@.take(i + 1)[k],
                    ) by {
                        if k < i {
                            assert(t@.take(i + 1)[k] == t@.take(i as int)[k]);
                        }
                    }
                }
                if all_digits(t@.take(i + 1)) {
                    assert(crate::text::is_digit(t@.take(i + 1)[i as int]));
                    assert forall|k: int| 0 <= k < i implies crate::text::is_digit(
                        #[trigger] t@.take(i as int)[k],
                    ) by {
                        assert(t@.take(i + 1)[k] == t@.take(i as int)[k]);
                    }
                }
            }
            all = all && '0' <= c && c <= '9';
            i = i + 1;
        }
        assert(t@.take(8) =~= t@);
        if all {
            let y = slice_chars(&t, 0, 4);
            let m = slice_chars(&t, 4, 6);
            let d = slice_chars(&t, 6, 8);
            return ymd_from(&y, &m, &d);
        }
    }
    None
}

/// Parse a date in `YYYY-MM-DD`, `DD/MM/YYYY`, or `YYYYMMDD` form, with full
/// calendar validation (month 1-12, day within the month, leap years).
pub fn parse_date(s: &str) -> (r: Option<(i64, u32, u32)>)
    ensures
        r == date_value(s@),
{
    match date_fields_of(s) {
        Some((y, m, d)) => {
            if y < i32::MIN as i64 || y > i32::MAX as i64 {
                return None;
            }
            if calendar_date_exists(y as i32, m, d) {
                Some((y, m, d))
            } else {
                None
            }
        },
        None => None,
    }
}

// ── Times ───────────────────────────────────────────────────────────────────

/// The clock text and the `AM`/`PM` marker of a time string: when the
/// uppercased, trimmed text ends in a space and `AM` or `PM`, the part before
/// that space (trimmed again) and the marker; otherwise the trimmed text.
pub open spec fn time_body(s: Seq<char>) -> (Seq<char>, Option<bool>) {
    let t = trim(s);
    let u = uppercase(t);
    match crate::text::last_index(u, ' ') {
        Some(i) => {
            let suf = u.skip(i + 1);
            if suf == seq!['A', 'M'] {
                (trim(u.take(i)), Some(false))
            } else if suf == seq!['P', 'M'] {
                (trim(u.take(i)), Some(true))
            } else {
                (t, None)
            }
        },
        None => (t, None),
    }
}

/// The `(hour, minute, second)` a time spells before range checks: the
/// `:`-separated hour and minute, and the seconds before any `.`.
pub open spec fn hms_fields(body: Seq<char>) -> Option<(u32, u32, u32)> {
    let p = split_seq(body, ':');
    let h = parse_unsigned(p[0], 0xffff_ffff);
    if p.len() < 2 {
        None
    } else {
        let m = parse_unsigned(p[1], 0xffff_ffff);
        let sec = if p.len() >= 3 {
            parse_unsigned(split_seq(p[2], '.')[0], 0xffff_ffff)
        } else {
            Some(0nat)
        };
        match (h, m, sec) {
            (Some(hv), Some(mv), Some(sv)) => Some((hv as u32, mv as u32, sv as u32)),
            _ => None,
        }
    }
}

/// What [`parse_time`] returns.
pub open spec fn time_value(s: Seq<char>) -> Option<(u32, u32, u32)> {
    let (body, pm) = time_body(s);
    if trim(s).len() == 0 {
        None
    } else {
        match hms_fields(body) {
            Some((h, m, sec)) => {
                if pm is Some && !(1 <= h <= 12) {
                    None
                } else {
                    let h2: u32 = if pm == Some(true) && h < 12 {
                        (h + 12) as u32
                    } else if pm == Some(false) && h == 12 {
                        0
                    } else {
                        h
                    };
                    if h2 < 24 && m < 60 && sec < 60 {
                        Some((h2, m, sec))
                    } else {
                        None
                    }
                }
            },
            None => None,
        }
    }
}

fn time_body_of(s: &str) -> (r: (Vec<char>, Option<bool>))
    ensures
        r.0@ == time_body(s@).0,
        r.1 == time_body(s@).1,
{
    let v = chars_of(s);
    let t = trim_chars(&v);
    let u = to_uppercase_chars(&t);
    match find_last(&u, ' ') {
        Some(i) => {
            proof {
                crate::text::last_index_in_range(u@, ' ');
            }
            let n = u.len();
            let suf = slice_chars(&u, i + 1, n);
            assert(suf@ =~= u@.skip(i + 1));
            let is_am = suf.len() == 2 && suf[0] == 'A' && suf[1] == 'M';
            let is_pm = suf.len() == 2 && suf[0] == 'P' && suf[1] == 'M';
            if is_am || is_pm {
                assert(is_am ==> suf@ =~= seq!['A', 'M']);
                assert(is_pm ==> suf@ =~= seq!['P', 'M']);
                let head = slice_chars(&u, 0, i);
                assert(head@ =~= u@.take(i as int));
                let b = trim_chars(&head);
                (b, Some(is_pm))
            } else {
                assert(suf@ != seq!['A', 'M']) by {
                    if suf@ == seq!['A', 'M'] {
                        assert(suf@[0] == 'A');
                    }
                }
                assert(suf@ != seq!['P', 'M']) by {
                    if suf@ == seq!['P', 'M'] {
                        assert(suf@[0] == 'P');
                    }
                }
                (t, None)
            }
        },
        None => (t, None),
    }
}

fn hms_fields_of(body: &Vec<char>) -> (r: Option<(u32, u32, u32)>)
    ensures
        r == hms_fields(body@),
{
    let p = split_chars(body, ':');
    proof {
        crate::text::split_nonempty(body@, ':');
    }
    let ghost sp = split_seq(body@, ':');
    assert(p@[0]@ == sp[0]);
    assert(p@[0]@.subrange(0, p@[0]@.len() as int) =~= p@[0]@);
    let h = parse_unsigned_range(&p[0], 0, p[0].len(), 0xffff_ffff);
    if p.len() < 2 {
        return None;
    }
    assert(p@[1]@ == sp[1]);
    assert(p@[1]@.subrange(0, p@[1]@.len() as int) =~= p@[1]@);
    let m = parse_unsigned_range(&p[1], 0, p[1].len(), 0xffff_ffff);
    let sec = if p.len() >= 3 {
        assert(p@[2]@ == sp[2]);
        let q = split_chars(&p[2], '.');
        proof {
            crate::text::split_nonempty(p@[2]@, '.');
        }
        assert(q@[0]@ == split_seq(sp[2], '.')[0]);
        assert(q@[0]@.subrange(0, q@[0]@.len() as int) =~= q@[0]@);
        parse_unsigned_range(&q[0], 0, q[0].len(), 0xffff_ffff)
    } else {
        Some(0)
    };
    match (h, m, sec) {
        (Some(hv), Some(mv), Some(sv)) => Some((hv as u32, mv as u32, sv as u32)),
        _ => None,
    }
}

/// Parse a time in `HH:MM:SS[.ffffff]`, `HH:MM`, or `h:MM AM/PM` form, with
/// range validation (hours 0-23, minutes and seconds 0-59).
pub fn parse_time(s: &str) -> (r: Option<(u32, u32, u32)>)
    ensures
        r == time_value(s@),
{
    let v = chars_of(s);
    let t = trim_chars(&v);
    if t.len() == 0 {
        return None;
    }
    let (body, pm) = time_body_of(s);
    match hms_fields_of(&body) {
        Some((h, m, sec)) => {
            if pm.is_some() && !(1 <= h && h <= 12) {
                return None;
            }
            let h2: u32 = if pm == Some(true) && h < 12 {
                h + 12
            } else if pm == Some(false) && h == 12 {
                0
            } else {
                h
            };
            if time_of_day_exists(h2, m, sec) {
                Some((h2, m, sec))
            } else {
                None
            }
        },
        None => None,
    }
}

// ── The ANB datetime string ─────────────────────────────────────────────────

/// `YYYY-MM-DDTHH:MM:SS.000`, each field zero-padded.
pub open spec fn datetime_text(d: (i64, u32, u32), t: (u32, u32, u32)) -> Seq<char> {
    zpad(d.0 as int, 4) + seq!['-'] + zpad(d.1 as int, 2) + seq!['-'] + zpad(d.2 as int, 2)
        + seq!['T'] + zpad(t.0 as int, 2) + seq![':'] + zpad(t.1 as int, 2) + seq![':'] + zpad(
        t.2 as int,
        2,
    ) + seq!['.', '0', '0', '0']
}

/// What [`build_datetime`] returns for optional date and time inputs.
pub open spec fn datetime_value(date: Option<Seq<char>>, time: Option<Seq<char>>) -> Option<
    (Seq<char>, bool, bool),
> {
    let d = match date {
        Some(s) => date_value(s),
        None => None,
    };
    let t = match time {
        Some(s) => time_value(s),
        None => None,
    };
    match d {
        Some(dv) => Some(
            (
                datetime_text(
                    dv,
                    match t {
                        Some(tv) => tv,
                        None => (0u32, 0u32, 0u32),
                    },
                ),
                true,
                t is Some,
            ),
        ),
        None => None,
    }
}

pub open spec fn opt_view(s: Option<&str>) -> Option<Seq<char>> {
    match s {
        Some(x) => Some(x@),
        None => None,
    }
}

/// The ANB `DateTime` string plus the `(date_set, time_set)` flags for
/// optional date and time inputs; `None` when no valid date is present. An
/// invalid time counts as no time.
pub fn build_datetime(date: Option<&str>, time: Option<&str>) -> (r: Option<(String, bool, bool)>)
    ensures
        match datetime_value(opt_view(date), opt_view(time)) {
            Some((text, ds, ts)) => r matches Some((s, a, b)) && s@ == text && a == ds && b == ts,
            None => r is None,
        },
{
    let d = match date {
        Some(s) => parse_date(s),
        None => None,
    };
    let d = match d {
        Some(x) => x,
        None => {
            return None;
        },
    };
    let t = match time {
        Some(s) => parse_time(s),
        None => None,
    };
    let (h, mi, se) = match t {
        Some(x) => x,
        None => (0, 0, 0),
    };
    let (y, mo, da) = d;
    let mut s = String::new();
    push_zpad(&mut s, y, 4);
    push_char(&mut s, '-');
    push_zpad(&mut s, mo as i64, 2);
    push_char(&mut s, '-');
    push_zpad(&mut s, da as i64, 2);
    push_char(&mut s, 'T');
    push_zpad(&mut s, h as i64, 2);
    push_char(&mut s, ':');
    push_zpad(&mut s, mi as i64, 2);
    push_char(&mut s, ':');
    push_zpad(&mut s, se as i64, 2);
    push_char(&mut s, '.');
    push_char(&mut s, '0');
    push_char(&mut s, '0');
    push_char(&mut s, '0');
    assert(s@ =~= datetime_text((y, mo, da), (h, mi, se)));
    Some((s, true, t.is_some()))
}

} // verus!
