//! Dates and times for the `date`, `time`, `datetime` and `day` placeholders.
//!
//! A point in local time is carried as a plain calendar value
//! ([`CivilDateTime`]); the clock, calendar arithmetic that needs a real
//! calendar, and formatting are obtained from the `chrono` crate through
//! trusted wrappers over plain values. Offset attributes such as `+1d-2h`
//! are parsed here, and format patterns in the `yyyy-MM-dd` mini-language
//! are translated to the strftime-style patterns the formatter understands.

use vstd::prelude::*;
use chrono::{Datelike, Timelike};
use crate::chars::{push_char, str_to_chars};

verus! {

/// A local calendar date and time, with the zone's offset from UTC in
/// minutes.
#[derive(Clone, Copy, Debug, PartialEq, Eq, Structural)]
pub struct CivilDateTime {
    pub year: i32,
    pub month: u8,
    pub day: u8,
    pub hour: u8,
    pub minute: u8,
    pub second: u8,
    pub tz_min: i32,
}

/// A leap year of the Gregorian calendar.
pub open spec fn is_leap_year(y: int) -> bool {
    (y % 4 == 0 && y % 100 != 0) || y % 400 == 0
}

/// The number of days in a month.
pub open spec fn days_in_month(y: int, m: int) -> int {
    if m == 2 {
        if is_leap_year(y) {
            29
        } else {
            28
        }
    } else if m == 4 || m == 6 || m == 9 || m == 11 {
        30
    } else {
        31
    }
}

/// A well-formed calendar value, within the range the calendar crate
/// supports.
pub open spec fn valid_civil(dt: CivilDateTime) -> bool {
    &&& 1 <= dt.month <= 12
    &&& 1 <= dt.day <= days_in_month(dt.year as int, dt.month as int)
    &&& dt.hour < 24
    &&& dt.minute < 60
    &&& dt.second < 60
    &&& -262000 <= dt.year <= 262000
    &&& -1440 < dt.tz_min < 1440
}

/// A calendar value whose year is small enough that the bounded shifts
/// below cannot leave the supported range.
pub open spec fn shiftable_civil(dt: CivilDateTime) -> bool {
    valid_civil(dt) && -30000 <= dt.year <= 30000
}

/// The calendar value `delta` months later, the day clamped to the last
/// day of the target month; the time of day and the zone are unchanged.
pub open spec fn month_shift(dt: CivilDateTime, delta: int) -> CivilDateTime {
    let t = dt.year * 12 + (dt.month - 1) + delta;
    let y = t / 12;
    let m = t % 12 + 1;
    let d = if dt.day <= days_in_month(y, m) {
        dt.day as int
    } else {
        days_in_month(y, m)
    };
    CivilDateTime {
        year: y as i32,
        month: m as u8,
        day: d as u8,
        hour: dt.hour,
        minute: dt.minute,
        second: dt.second,
        tz_min: dt.tz_min,
    }
}

/// What the calendar crate returns for a shift of a calendar value by a
/// number of seconds.
pub uninterp spec fn seconds_shifted(dt: CivilDateTime, secs: int) -> CivilDateTime;

/// What the calendar crate returns when formatting a calendar value with a
/// strftime-style pattern.
pub uninterp spec fn formatted(dt: CivilDateTime, fmt: Seq<char>) -> Seq<char>;

/// Relies on `chrono::NaiveDate::checked_add_months`: the month count is
/// shifted forward and the day clamped to the last day of the target month;
/// within the required bounds the shift cannot fail.
#[verifier::external_body]
fn civil_add_months(dt: CivilDateTime, n: u32) -> (r: CivilDateTime)
    requires
        shiftable_civil(dt),
        n <= 600000,
    ensures
        r == month_shift(dt, n as int),
{
    let d = chrono::NaiveDate::from_ymd_opt(dt.year, dt.month as u32, dt.day as u32).unwrap();
    let d2 = d.checked_add_months(chrono::Months::new(n)).unwrap();
    CivilDateTime {
        year: d2.year(),
        month: d2.month() as u8,
        day: d2.day() as u8,
        hour: dt.hour,
        minute: dt.minute,
        second: dt.second,
        tz_min: dt.tz_min,
    }
}

/// Relies on `chrono::NaiveDate::checked_sub_months`: the month count is
/// shifted backward and the day clamped to the last day of the target
/// month; within the required bounds the shift cannot fail.
#[verifier::external_body]
fn civil_sub_months(dt: CivilDateTime, n: u32) -> (r: CivilDateTime)
    requires
        shiftable_civil(dt),
        n <= 600000,
    ensures
        r == month_shift(dt, -(n as int)),
{
    let d = chrono::NaiveDate::from_ymd_opt(dt.year, dt.month as u32, dt.day as u32).unwrap();
    let d2 = d.checked_sub_months(chrono::Months::new(n)).unwrap();
    CivilDateTime {
        year: d2.year(),
        month: d2.month() as u8,
        day: d2.day() as u8,
        hour: dt.hour,
        minute: dt.minute,
        second: dt.second,
        tz_min: dt.tz_min,
    }
}

/// Relies on `chrono::NaiveDateTime::checked_add_signed`: the calendar
/// value shifted by a number of seconds, a function of the value and the
/// seconds alone; within the required bounds the shift cannot fail, the
/// result is well formed, the zone offset passes through unchanged, and a
/// zero shift returns the value itself.
#[verifier::external_body]
fn civil_add_seconds(dt: CivilDateTime, secs: i64) -> (r: CivilDateTime)
    requires
        shiftable_civil(dt),
        -10_000_000_000 <= secs <= 10_000_000_000,
    ensures
        r == seconds_shifted(dt, secs as int),
        valid_civil(r),
        r.tz_min == dt.tz_min,
        secs == 0 ==> r == dt,
{
    let d = chrono::NaiveDate::from_ymd_opt(dt.year, dt.month as u32, dt.day as u32).unwrap();
    let t = d.and_hms_opt(dt.hour as u32, dt.minute as u32, dt.second as u32).unwrap();
    let t2 = t.checked_add_signed(chrono::TimeDelta::try_seconds(secs).unwrap()).unwrap();
    CivilDateTime {
        year: t2.year(),
        month: t2.month() as u8,
        day: t2.day() as u8,
        hour: t2.hour() as u8,
        minute: t2.minute() as u8,
        second: t2.second() as u8,
        tz_min: dt.tz_min,
    }
}

/// A specifier character accepted directly after `%`.
pub open spec fn is_plain_spec_char(c: char) -> bool {
    c == 'Y' || c == 'y' || c == 'B' || c == 'b' || c == 'm' || c == 'A' || c == 'a' || c == 'd'
        || c == 'H' || c == 'I' || c == 'M' || c == 'S' || c == 'f' || c == 'p' || c == 'z'
        || c == '%'
}

/// A specifier character accepted after `%-` (the no-padding form).
pub open spec fn is_pad_spec_char(c: char) -> bool {
    c == 'm' || c == 'd' || c == 'H' || c == 'I' || c == 'M' || c == 'S'
}

/// A strftime-style pattern the formatter is known to accept: every `%`
/// starts one of the specifiers this module ever emits.
pub open spec fn chrono_safe(s: Seq<char>) -> bool
    decreases s.len(),
{
    if s.len() == 0 {
        true
    } else if s[0] != '%' {
        chrono_safe(s.skip(1))
    } else if s.len() >= 2 && is_plain_spec_char(s[1]) {
        chrono_safe(s.skip(2))
    } else if s.len() >= 3 && s[1] == '-' && is_pad_spec_char(s[2]) {
        chrono_safe(s.skip(3))
    } else {
        false
    }
}

/// Relies on `chrono`'s formatting of a fixed-offset date and time: for a
/// well-formed calendar value and a pattern of known specifiers the
/// formatter cannot fail, and its output is a function of the value and
/// the pattern alone.
#[verifier::external_body]
fn format_civil(dt: CivilDateTime, fmt: &str) -> (r: String)
    requires
        valid_civil(dt),
        chrono_safe(fmt@),
    ensures
        r@ == formatted(dt, fmt@),
{
    let off = chrono::FixedOffset::east_opt(dt.tz_min * 60).unwrap();
    let d = chrono::NaiveDate::from_ymd_opt(dt.year, dt.month as u32, dt.day as u32).unwrap();
    let t = d.and_hms_opt(dt.hour as u32, dt.minute as u32, dt.second as u32).unwrap();
    let zoned = t.and_local_timezone(off).unwrap();
    zoned.format(fmt).to_string()
}

/// The end of the run of copies of `s[i]` starting at `i`.
pub open spec fn run_end(s: Seq<char>, i: int) -> int
    decreases s.len() - i,
{
    if 0 <= i < s.len() {
        if i + 1 < s.len() && s[i + 1] == s[i] {
            run_end(s, i + 1)
        } else {
            i + 1
        }
    } else {
        i
    }
}

/// A run reaches past its first character and not past the end.
pub proof fn lemma_run_end_bounds(s: Seq<char>, i: int)
    requires
        0 <= i < s.len(),
    ensures
        i < run_end(s, i) <= s.len(),
    decreases s.len() - i,
{
    if i + 1 < s.len() && s[i + 1] == s[i] {
        lemma_run_end_bounds(s, i + 1);
    }
}

/// One pattern character outside quotes, emitted literally; `%` is doubled
/// so the formatter reads it as a literal percent sign.
pub open spec fn lit_char(c: char) -> Seq<char> {
    if c == '%' {
        seq!['%', '%']
    } else {
        seq![c]
    }
}

/// `n` literal copies of a pattern character.
pub open spec fn repeat_lit(c: char, n: int) -> Seq<char>
    decreases n,
{
    if n <= 0 {
        seq![]
    } else {
        lit_char(c) + repeat_lit(c, n - 1)
    }
}

/// The specifier emitted for a run of `n` copies of `c`, if the run is one
/// of the recognized date-pattern tokens: `y`ear, `M`onth, w`E`ekday,
/// `d`ay, `H`our, 12-`h`our, `m`inute, `s`econd, fractional `S`econd,
/// `a`m-pm and `Z`one.
pub open spec fn date_token(c: char, n: int) -> Option<Seq<char>> {
    if c == 'y' && n == 4 {
        Some(seq!['%', 'Y'])
    } else if c == 'y' && n == 2 {
        Some(seq!['%', 'y'])
    } else if c == 'M' && n == 4 {
        Some(seq!['%', 'B'])
    } else if c == 'M' && n == 3 {
        Some(seq!['%', 'b'])
    } else if c == 'M' && n == 2 {
        Some(seq!['%', 'm'])
    } else if c == 'M' && n == 1 {
        Some(seq!['%', '-', 'm'])
    } else if c == 'E' && n == 4 {
        Some(seq!['%', 'A'])
    } else if c == 'E' && 1 <= n <= 3 {
        Some(seq!['%', 'a'])
    } else if c == 'd' && n == 2 {
        Some(seq!['%', 'd'])
    } else if c == 'd' && n == 1 {
        Some(seq!['%', '-', 'd'])
    } else if c == 'H' && n == 2 {
        Some(seq!['%', 'H'])
    } else if c == 'H' && n == 1 {
        Some(seq!['%', '-', 'H'])
    } else if c == 'h' && n == 2 {
        Some(seq!['%', 'I'])
    } else if c == 'h' && n == 1 {
        Some(seq!['%', '-', 'I'])
    } else if c == 'm' && n == 2 {
        Some(seq!['%', 'M'])
    } else if c == 'm' && n == 1 {
        Some(seq!['%', '-', 'M'])
    } else if c == 's' && n == 2 {
        Some(seq!['%', 'S'])
    } else if c == 's' && n == 1 {
        Some(seq!['%', '-', 'S'])
    } else if c == 'S' && n == 3 {
        Some(seq!['%', 'f'])
    } else if c == 'a' && n == 1 {
        Some(seq!['%', 'p'])
    } else if c == 'Z' && n == 1 {
        Some(seq!['%', 'z'])
    } else {
        None
    }
}

/// The translation of a date pattern from `i` on. A quote toggles literal
/// mode and is dropped; inside quotes characters pass through; outside,
/// runs of a letter are mapped by [`date_token`], and unrecognized runs
/// pass through literally.
pub open spec fn translate_spec(s: Seq<char>, i: int, in_lit: bool) -> Seq<char>
    decreases s.len() - i,
{
    if !(0 <= i < s.len()) {
        seq![]
    } else if s[i] == '\'' {
        translate_spec(s, i + 1, !in_lit)
    } else if in_lit {
        lit_char(s[i]) + translate_spec(s, i + 1, in_lit)
    } else {
        let e = run_end(s, i);
        if i < e <= s.len() {
            match date_token(s[i], e - i) {
                Some(tok) => tok + translate_spec(s, e, false),
                None => repeat_lit(s[i], e - i) + translate_spec(s, e, false),
            }
        } else {
            seq![]
        }
    }
}

/// Safe patterns stay safe under concatenation.
pub proof fn lemma_chrono_safe_concat(a: Seq<char>, b: Seq<char>)
    requires
        chrono_safe(a),
        chrono_safe(b),
    ensures
        chrono_safe(a + b),
    decreases a.len(),
{
    if a.len() == 0 {
        assert(a + b =~= b);
    } else if a[0] != '%' {
        lemma_chrono_safe_concat(a.skip(1), b);
        assert((a + b).skip(1) =~= a.skip(1) + b);
    } else if a.len() >= 2 && is_plain_spec_char(a[1]) {
        lemma_chrono_safe_concat(a.skip(2), b);
        assert((a + b).skip(2) =~= a.skip(2) + b);
    } else {
        lemma_chrono_safe_concat(a.skip(3), b);
        assert((a + b).skip(3) =~= a.skip(3) + b);
    }
}

/// Every emitted token is a safe pattern.
pub proof fn lemma_date_token_safe(c: char, n: int)
    requires
        date_token(c, n) is Some,
    ensures
        chrono_safe(date_token(c, n)->0),
{
    let tok = date_token(c, n)->0;
    if tok.len() == 2 {
        assert(tok.skip(2) =~= Seq::<char>::empty());
        assert(chrono_safe(tok.skip(2)));
        assert(tok[0] == '%' && is_plain_spec_char(tok[1]));
        assert(chrono_safe(tok));
    } else {
        assert(tok.skip(3) =~= Seq::<char>::empty());
        assert(chrono_safe(tok.skip(3)));
        assert(tok[0] == '%' && tok[1] == '-' && is_pad_spec_char(tok[2]));
        assert(chrono_safe(tok));
    }
}

/// A literal character is a safe pattern.
pub proof fn lemma_lit_char_safe(c: char)
    ensures
        chrono_safe(lit_char(c)),
{
    if c == '%' {
        assert(lit_char(c).skip(2) =~= Seq::<char>::empty());
        assert(chrono_safe(lit_char(c).skip(2)));
        assert(chrono_safe(lit_char(c)));
    } else {
        assert(lit_char(c).skip(1) =~= Seq::<char>::empty());
        assert(chrono_safe(lit_char(c).skip(1)));
        assert(chrono_safe(lit_char(c)));
    }
}

/// A literal run is a safe pattern.
pub proof fn lemma_repeat_lit_safe(c: char, n: int)
    ensures
        chrono_safe(repeat_lit(c, n)),
    decreases n,
{
    if n <= 0 {
    } else {
        lemma_lit_char_safe(c);
        lemma_repeat_lit_safe(c, n - 1);
        lemma_chrono_safe_concat(lit_char(c), repeat_lit(c, n - 1));
    }
}

/// Every translated pattern is safe to hand to the formatter.
pub proof fn lemma_translate_safe(s: Seq<char>, i: int, in_lit: bool)
    requires
        0 <= i <= s.len(),
    ensures
        chrono_safe(translate_spec(s, i, in_lit)),
    decreases s.len() - i,
{
    if i < s.len() {
        if s[i] == '\'' {
            lemma_translate_safe(s, i + 1, !in_lit);
        } else if in_lit {
            lemma_lit_char_safe(s[i]);
            lemma_translate_safe(s, i + 1, in_lit);
            lemma_chrono_safe_concat(lit_char(s[i]), translate_spec(s, i + 1, in_lit));
        } else {
            lemma_run_end_bounds(s, i);
            let e = run_end(s, i);
            lemma_translate_safe(s, e, false);
            match date_token(s[i], e - i) {
                Some(tok) => {
                    lemma_date_token_safe(s[i], e - i);
                    lemma_chrono_safe_concat(tok, translate_spec(s, e, false));
                },
                None => {
                    lemma_repeat_lit_safe(s[i], e - i);
                    lemma_chrono_safe_concat(repeat_lit(s[i], e - i), translate_spec(s, e, false));
                },
            }
        }
    }
}

/// Repeating a literal one more time appends one more literal.
proof fn lemma_repeat_lit_snoc(c: char, n: int)
    requires
        n >= 0,
    ensures
        repeat_lit(c, n) + lit_char(c) =~= repeat_lit(c, n + 1),
    decreases n,
{
    if n > 0 {
        lemma_repeat_lit_snoc(c, n - 1);
        assert((lit_char(c) + repeat_lit(c, n - 1)) + lit_char(c) =~= lit_char(c) + (repeat_lit(
            c,
            n - 1,
        ) + lit_char(c)));
    } else {
        assert(repeat_lit(c, 0) + lit_char(c) =~= lit_char(c) + repeat_lit(c, 0));
    }
}

/// Appends the specifier for a run of `n` copies of `c`, if there is one;
/// says whether it did.
fn push_token(out: &mut String, c: char, n: usize) -> (hit: bool)
    ensures
        if hit {
            date_token(c, n as int) is Some && final(out)@ == old(out)@ + date_token(
                c,
                n as int,
            )->0
        } else {
            date_token(c, n as int) is None && final(out)@ == old(out)@
        },
{
    let two: Option<char> = if c == 'y' && n == 4 {
        Some('Y')
    } else if c == 'y' && n == 2 {
        Some('y')
    } else if c == 'M' && n == 4 {
        Some('B')
    } else if c == 'M' && n == 3 {
        Some('b')
    } else if c == 'M' && n == 2 {
        Some('m')
    } else if c == 'E' && n == 4 {
        Some('A')
    } else if c == 'E' && 1 <= n && n <= 3 {
        Some('a')
    } else if c == 'd' && n == 2 {
        Some('d')
    } else if c == 'H' && n == 2 {
        Some('H')
    } else if c == 'h' && n == 2 {
        Some('I')
    } else if c == 'm' && n == 2 {
        Some('M')
    } else if c == 's' && n == 2 {
        Some('S')
    } else if c == 'S' && n == 3 {
        Some('f')
    } else if c == 'a' && n == 1 {
        Some('p')
    } else if c == 'Z' && n == 1 {
        Some('z')
    } else {
        None
    };
    match two {
        Some(t) => {
            push_char(out, '%');
            push_char(out, t);
            proof {
                assert(final(out)@ =~= old(out)@ + date_token(c, n as int)->0);
            }
            true
        },
        None => {
            let three: Option<char> = if c == 'M' && n == 1 {
                Some('m')
            } else if c == 'd' && n == 1 {
                Some('d')
            } else if c == 'H' && n == 1 {
                Some('H')
            } else if c == 'h' && n == 1 {
                Some('I')
            } else if c == 'm' && n == 1 {
                Some('M')
            } else if c == 's' && n == 1 {
                Some('S')
            } else {
                None
            };
            match three {
                Some(t) => {
                    push_char(out, '%');
                    push_char(out, '-');
                    push_char(out, t);
                    proof {
                        assert(final(out)@ =~= old(out)@ + date_token(c, n as int)->0);
                    }
                    true
                },
                None => false,
            }
        },
    }
}

/// Translates a date pattern in the `yyyy-MM-dd` mini-language to the
/// strftime-style pattern the formatter understands, as
/// [`translate_spec`] describes: quoted text is literal, recognized letter
/// runs become specifiers, everything else passes through literally.
pub fn translate_date_format(format_str: &str) -> (r: String)
    ensures
        r@ == translate_spec(format_str@, 0, false),
        chrono_safe(r@),
{
    let s = str_to_chars(format_str);
    let n = s.len();
    let mut out = String::new();
    let mut i: usize = 0;
    let mut in_lit = false;
    while i < n
        invariant
            n == s@.len(),
            s@ == format_str@,
            i <= n,
            translate_spec(format_str@, 0, false) == out@ + translate_spec(
                format_str@,
                i as int,
                in_lit,
            ),
        decreases n - i,
    {
        let c = s[i];
        if c == '\'' {
            in_lit = !in_lit;
            i += 1;
        } else if in_lit {
            if c == '%' {
                push_char(&mut out, '%');
                push_char(&mut out, '%');
            } else {
                push_char(&mut out, c);
            }
            i += 1;
        } else {
            let mut j: usize = i;
            while j + 1 < n && s[j + 1] == c
                invariant
                    i <= j < n,
                    n == s@.len(),
                    s@[j as int] == c,
                    run_end(s@, i as int) == run_end(s@, j as int),
                decreases n - j,
            {
                j += 1;
            }
            let e = j + 1;
            proof {
                assert(run_end(s@, j as int) == j + 1);
            }
            let count = e - i;
            let hit = push_token(&mut out, c, count);
            if !hit {
                let mut k: usize = 0;
                let ghost base = out@;
                while k < count
                    invariant
                        k <= count,
                        out@ == base + repeat_lit(c, k as int),
                    decreases count - k,
                {
                    if c == '%' {
                        push_char(&mut out, '%');
                        push_char(&mut out, '%');
                    } else {
                        push_char(&mut out, c);
                    }
                    proof {
                        lemma_repeat_lit_snoc(c, k as int);
                        assert(out@ =~= base + repeat_lit(c, k as int + 1));
                    }
                    k += 1;
                }
            }
            i = e;
        }
    }
    proof {
        lemma_translate_safe(format_str@, 0, false);
    }
    out
}

/// The unit of one signed offset delta.
#[derive(Clone, Copy, Debug, PartialEq, Eq, Structural)]
pub enum DeltaUnit {
    Years,
    Months,
    Days,
    Hours,
    Minutes,
}

/// One signed shift of the reference time, such as `+1d` or `-2h`.
#[derive(Clone, Copy, Debug, PartialEq, Eq, Structural)]
pub struct Delta {
    pub unit: DeltaUnit,
    pub amount: i64,
}

/// The numeric value of a digit character.
pub open spec fn digit_val(c: char) -> int {
    c as int - '0' as int
}

/// A decimal digit.
pub open spec fn is_digit(c: char) -> bool {
    '0' <= c && c <= '9'
}

/// The end of the digit run starting at `i`.
pub open spec fn digits_end(s: Seq<char>, i: int) -> int
    decreases s.len() - i,
{
    if 0 <= i < s.len() && is_digit(s[i]) {
        digits_end(s, i + 1)
    } else {
        i
    }
}

/// The value of a digit string.
pub open spec fn digits_value(s: Seq<char>) -> int
    decreases s.len(),
{
    if s.len() == 0 {
        0
    } else {
        digits_value(s.drop_last()) * 10 + digit_val(s.last())
    }
}

/// The unit named by one offset letter: `y`ears, `M`onths, `d`ays, `h`ours
/// and `m`inutes.
pub open spec fn unit_of(c: char) -> Option<DeltaUnit> {
    if c == 'y' {
        Some(DeltaUnit::Years)
    } else if c == 'M' {
        Some(DeltaUnit::Months)
    } else if c == 'd' {
        Some(DeltaUnit::Days)
    } else if c == 'h' {
        Some(DeltaUnit::Hours)
    } else if c == 'm' {
        Some(DeltaUnit::Minutes)
    } else {
        None
    }
}

/// One delta parsed at `i`: a sign, at least one digit and a unit letter.
/// A digit string too large for the amount field counts as zero, as a
/// failed number parse does upstream.
pub open spec fn delta_parse(s: Seq<char>, i: int) -> Option<(Delta, int)> {
    if 0 <= i < s.len() && (s[i] == '+' || s[i] == '-') {
        let de = digits_end(s, i + 1);
        if de > i + 1 && de < s.len() && unit_of(s[de]) is Some {
            let v = digits_value(s.subrange(i + 1, de));
            let amt: int = if v > 0x7fff_ffff_ffff_ffff {
                0
            } else {
                v
            };
            let signed: int = if s[i] == '-' {
                -amt
            } else {
                amt
            };
            Some((Delta { unit: unit_of(s[de])->0, amount: signed as i64 }, de + 1))
        } else {
            None
        }
    } else {
        None
    }
}

/// All deltas found in an offset text, scanning left to right; characters
/// that do not start a delta are skipped.
pub open spec fn deltas_from(s: Seq<char>, i: int) -> Seq<Delta>
    decreases s.len() - i,
{
    if 0 <= i < s.len() {
        match delta_parse(s, i) {
            Some((d, end)) => {
                if i < end <= s.len() {
                    seq![d] + deltas_from(s, end)
                } else {
                    seq![]
                }
            },
            None => deltas_from(s, i + 1),
        }
    } else {
        seq![]
    }
}

/// The digit run at `i` parsed into an amount, oversized values counting
/// as zero.
fn parse_digit_run(s: &Vec<char>, a: usize, b: usize) -> (r: i64)
    requires
        a <= b <= s@.len(),
        forall|k: int| a <= k < b ==> is_digit(s@[k]),
    ensures
        ({
            let v = digits_value(s@.subrange(a as int, b as int));
            r == if v > 0x7fff_ffff_ffff_ffff {
                0int
            } else {
                v
            }
        }),
        r >= 0,
{
    let mut v: i64 = 0;
    let mut over = false;
    let mut k: usize = a;
    while k < b
        invariant
            a <= k <= b <= s@.len(),
            forall|t: int| a <= t < b ==> is_digit(s@[t]),
            !over ==> v == digits_value(s@.subrange(a as int, k as int)) && v >= 0,
            over ==> digits_value(s@.subrange(a as int, k as int)) > 0x7fff_ffff_ffff_ffff,
        decreases b - k,
    {
        let c = s[k];
        let d: i64 = (c as u32 - '0' as u32) as i64;
        proof {
            assert(s@.subrange(a as int, k as int + 1).drop_last() =~= s@.subrange(
                a as int,
                k as int,
            ));
            assert(s@.subrange(a as int, k as int + 1).last() == s@[k as int]);
        }
        if !over {
            if v > (0x7fff_ffff_ffff_ffff - d) / 10 {
                over = true;
                proof {
                    let prev = digits_value(s@.subrange(a as int, k as int));
                    assert(prev * 10 + d > 0x7fff_ffff_ffff_ffff) by (nonlinear_arith)
                        requires
                            prev == v,
                            v > (0x7fff_ffff_ffff_ffff - d) / 10,
                            0 <= d <= 9,
                            v >= 0,
                    ;
                }
            } else {
                proof {
                    let prev = digits_value(s@.subrange(a as int, k as int));
                    assert(prev * 10 + d <= 0x7fff_ffff_ffff_ffff) by (nonlinear_arith)
                        requires
                            prev == v,
                            v <= (0x7fff_ffff_ffff_ffff - d) / 10,
                            0 <= d <= 9,
                            v >= 0,
                    ;
                }
                v = v * 10 + d;
            }
        } else {
            proof {
                let prev = digits_value(s@.subrange(a as int, k as int));
                assert(prev * 10 + d > 0x7fff_ffff_ffff_ffff) by (nonlinear_arith)
                    requires
                        prev > 0x7fff_ffff_ffff_ffff,
                        0 <= d <= 9,
                ;
            }
        }
        k += 1;
    }
    if over {
        0
    } else {
        v
    }
}

/// The deltas of an offset attribute such as `+1d-2h`, in written order,
/// as [`deltas_from`] describes.
pub fn parse_offset(offset_str: &str) -> (r: Vec<Delta>)
    ensures
        r@ == deltas_from(offset_str@, 0),
{
    let s = str_to_chars(offset_str);
    let n = s.len();
    let mut acc: Vec<Delta> = Vec::new();
    let mut i: usize = 0;
    while i < n
        invariant
            n == s@.len(),
            s@ == offset_str@,
            i <= n,
            deltas_from(offset_str@, 0) == acc@ + deltas_from(offset_str@, i as int),
        decreases n - i,
    {
        let c = s[i];
        let mut advanced = false;
        if c == '+' || c == '-' {
            let mut j: usize = i + 1;
            while j < n && '0' <= s[j] && s[j] <= '9'
                invariant
                    i + 1 <= j <= n,
                    n == s@.len(),
                    digits_end(s@, i as int + 1) == digits_end(s@, j as int),
                    forall|t: int| i + 1 <= t < j ==> is_digit(s@[t]),
                decreases n - j,
            {
                j += 1;
            }
            if j > i + 1 && j < n {
                let unit = if s[j] == 'y' {
                    Some(DeltaUnit::Years)
                } else if s[j] == 'M' {
                    Some(DeltaUnit::Months)
                } else if s[j] == 'd' {
                    Some(DeltaUnit::Days)
                } else if s[j] == 'h' {
                    Some(DeltaUnit::Hours)
                } else if s[j] == 'm' {
                    Some(DeltaUnit::Minutes)
                } else {
                    None
                };
                if let Some(u) = unit {
                    let amt = parse_digit_run(&s, i + 1, j);
                    let signed: i64 = if c == '-' {
                        -amt
                    } else {
                        amt
                    };
                    acc.push(Delta { unit: u, amount: signed });
                    i = j + 1;
                    advanced = true;
                    proof {
                        assert(deltas_from(offset_str@, 0) =~= acc@ + deltas_from(
                            offset_str@,
                            i as int,
                        ));
                    }
                }
            }
        }
        if !advanced {
            proof {
                assert(delta_parse(s@, i as int) is None);
            }
            i += 1;
        }
    }
    acc
}

/// A bounded month shift of a shiftable value is well formed.
pub proof fn lemma_month_shift_valid(dt: CivilDateTime, delta: int)
    requires
        shiftable_civil(dt),
        -600000 <= delta <= 600000,
    ensures
        valid_civil(month_shift(dt, delta)),
{
    let t = dt.year * 12 + (dt.month - 1) + delta;
    let y = t / 12;
    let m = t % 12 + 1;
    assert(-961000 <= t <= 961000);
    assert(12 * y + t % 12 == t) by (nonlinear_arith)
        requires
            y == t / 12,
    ;
    assert(0 <= t % 12 < 12);
    assert(-81000 <= y <= 81000) by (nonlinear_arith)
        requires
            12 * y + t % 12 == t,
            0 <= t % 12 < 12,
            -961000 <= t <= 961000,
    ;
    assert(1 <= m <= 12);
    assert(days_in_month(y, m) >= 28);
}

/// The effect of one delta on the reference time: bounded shifts are
/// applied through the calendar; a shift that would leave the supported
/// range, or start from outside it, leaves the value unchanged.
pub open spec fn apply_delta_spec(dt: CivilDateTime, d: Delta) -> CivilDateTime {
    if !shiftable_civil(dt) {
        dt
    } else if d.unit is Years {
        if -50000 <= d.amount <= 50000 {
            month_shift(dt, 12 * d.amount)
        } else {
            dt
        }
    } else if d.unit is Months {
        if -600000 <= d.amount <= 600000 {
            month_shift(dt, d.amount as int)
        } else {
            dt
        }
    } else if d.unit is Days {
        if -100000 <= d.amount <= 100000 {
            seconds_shifted(dt, d.amount * 86400)
        } else {
            dt
        }
    } else if d.unit is Hours {
        if -2_500_000 <= d.amount <= 2_500_000 {
            seconds_shifted(dt, d.amount * 3600)
        } else {
            dt
        }
    } else {
        if -150_000_000 <= d.amount <= 150_000_000 {
            seconds_shifted(dt, d.amount * 60)
        } else {
            dt
        }
    }
}

/// The effect of a delta list, applied in written order.
pub open spec fn apply_deltas_spec(dt: CivilDateTime, ds: Seq<Delta>) -> CivilDateTime
    decreases ds.len(),
{
    if ds.len() == 0 {
        dt
    } else {
        apply_deltas_spec(apply_delta_spec(dt, ds.first()), ds.drop_first())
    }
}

/// One delta applied, but only within the bounds the calendar wrappers
/// accept, per [`apply_delta_spec`].
fn apply_delta(dt: CivilDateTime, d: Delta) -> (r: CivilDateTime)
    requires
        valid_civil(dt),
    ensures
        r == apply_delta_spec(dt, d),
        valid_civil(r),
{
    if !(-30000 <= dt.year && dt.year <= 30000) {
        return dt;
    }
    match d.unit {
        DeltaUnit::Years => {
            if -50000 <= d.amount && d.amount <= 50000 {
                let months = 12 * d.amount;
                let r = if months >= 0 {
                    civil_add_months(dt, months as u32)
                } else {
                    civil_sub_months(dt, (-months) as u32)
                };
                proof {
                    lemma_month_shift_valid(dt, 12 * d.amount);
                }
                r
            } else {
                dt
            }
        },
        DeltaUnit::Months => {
            if -600000 <= d.amount && d.amount <= 600000 {
                let r = if d.amount >= 0 {
                    civil_add_months(dt, d.amount as u32)
                } else {
                    civil_sub_months(dt, (-d.amount) as u32)
                };
                proof {
                    lemma_month_shift_valid(dt, d.amount as int);
                }
                r
            } else {
                dt
            }
        },
        DeltaUnit::Days => {
            if -100000 <= d.amount && d.amount <= 100000 {
                civil_add_seconds(dt, d.amount * 86400)
            } else {
                dt
            }
        },
        DeltaUnit::Hours => {
            if -2_500_000 <= d.amount && d.amount <= 2_500_000 {
                civil_add_seconds(dt, d.amount * 3600)
            } else {
                dt
            }
        },
        DeltaUnit::Minutes => {
            if -150_000_000 <= d.amount && d.amount <= 150_000_000 {
                civil_add_seconds(dt, d.amount * 60)
            } else {
                dt
            }
        },
    }
}

/// A delta list applied in order, per [`apply_deltas_spec`].
pub fn apply_deltas(dt: CivilDateTime, ds: &Vec<Delta>) -> (r: CivilDateTime)
    requires
        valid_civil(dt),
    ensures
        r == apply_deltas_spec(dt, ds@),
        valid_civil(r),
{
    let mut cur = dt;
    let mut i: usize = 0;
    proof {
        assert(ds@.skip(0) =~= ds@);
    }
    while i < ds.len()
        invariant
            i <= ds@.len(),
            valid_civil(cur),
            apply_deltas_spec(dt, ds@) == apply_deltas_spec(cur, ds@.skip(i as int)),
        decreases ds@.len() - i,
    {
        cur = apply_delta(cur, ds[i]);
        proof {
            assert(ds@.skip(i as int).drop_first() =~= ds@.skip(i as int + 1));
        }
        i += 1;
    }
    proof {
        assert(ds@.skip(ds@.len() as int) =~= Seq::<Delta>::empty());
    }
    cur
}

/// The formatter's output with lower-case `am` and `pm` markers raised to
/// upper case, scanning left to right without overlap.
pub open spec fn replace_ampm_spec(s: Seq<char>) -> Seq<char>
    decreases s.len(),
{
    if s.len() >= 2 && (s[0] == 'a' || s[0] == 'p') && s[1] == 'm' {
        seq![crate::chars::ascii_upper(s[0]), 'M'] + replace_ampm_spec(s.skip(2))
    } else if s.len() >= 1 {
        seq![s[0]] + replace_ampm_spec(s.skip(1))
    } else {
        seq![]
    }
}

/// Raises `am` and `pm` markers to upper case, per [`replace_ampm_spec`].
pub fn replace_ampm(s: &str) -> (r: String)
    ensures
        r@ == replace_ampm_spec(s@),
{
    let cs = str_to_chars(s);
    let n = cs.len();
    let mut out = String::new();
    let mut i: usize = 0;
    proof {
        assert(cs@.skip(0) =~= cs@);
    }
    while i < n
        invariant
            n == cs@.len(),
            cs@ == s@,
            i <= n,
            replace_ampm_spec(s@) == out@ + replace_ampm_spec(s@.skip(i as int)),
        decreases n - i,
    {
        let c = cs[i];
        if i + 1 < n && (c == 'a' || c == 'p') && cs[i + 1] == 'm' {
            push_char(&mut out, crate::chars::ascii_upper_char(c));
            push_char(&mut out, 'M');
            proof {
                assert(s@.skip(i as int).skip(2) =~= s@.skip(i as int + 2));
                assert(s@.skip(i as int)[0] == s@[i as int]);
                assert(s@.skip(i as int)[1] == s@[i as int + 1]);
            }
            i += 2;
        } else {
            push_char(&mut out, c);
            proof {
                assert(s@.skip(i as int).skip(1) =~= s@.skip(i as int + 1));
                assert(s@.skip(i as int)[0] == s@[i as int]);
            }
            i += 1;
        }
    }
    proof {
        assert(s@.skip(n as int) =~= Seq::<char>::empty());
    }
    out
}

/// The built-in pattern of each timestamp placeholder.
pub open spec fn default_pattern(name: Seq<char>) -> Seq<char> {
    if name == "date"@ {
        "d MMM yyyy"@
    } else if name == "time"@ {
        "h:mm a"@
    } else if name == "datetime"@ {
        "d MMM yyyy 'at' h:mm a"@
    } else if name == "day"@ {
        "EEEE"@
    } else {
        ""@
    }
}

/// The text of a timestamp placeholder: the reference time shifted by the
/// offset attribute's deltas, formatted with the translated format
/// attribute or the placeholder's built-in pattern, with am and pm markers
/// raised to upper case.
pub open spec fn date_value_spec(
    name: Seq<char>,
    offset_attr: Option<Seq<char>>,
    format_attr: Option<Seq<char>>,
    now: CivilDateTime,
) -> Seq<char> {
    let deltas = match offset_attr {
        Some(o) => deltas_from(o, 0),
        None => seq![],
    };
    let dt = apply_deltas_spec(now, deltas);
    let fmt = match format_attr {
        Some(f) => translate_spec(f, 0, false),
        None => translate_spec(default_pattern(name), 0, false),
    };
    replace_ampm_spec(formatted(dt, fmt))
}

/// The text of a timestamp placeholder, per [`date_value_spec`].
pub fn date_placeholder_value(
    name: &String,
    offset_attr: &Option<String>,
    format_attr: &Option<String>,
    now: CivilDateTime,
) -> (r: String)
    requires
        valid_civil(now),
    ensures
        r@ == date_value_spec(
            name@,
            match offset_attr {
                Some(o) => Some(o@),
                None => None,
            },
            match format_attr {
                Some(f) => Some(f@),
                None => None,
            },
            now,
        ),
{
    let deltas = match offset_attr {
        Some(o) => parse_offset(o.as_str()),
        None => Vec::new(),
    };
    let dt = apply_deltas(now, &deltas);
    let fmt = match format_attr {
        Some(f) => translate_date_format(f.as_str()),
        None => {
            if *name == String::from_str("date") {
                translate_date_format("d MMM yyyy")
            } else if *name == String::from_str("time") {
                translate_date_format("h:mm a")
            } else if *name == String::from_str("datetime") {
                translate_date_format("d MMM yyyy 'at' h:mm a")
            } else if *name == String::from_str("day") {
                translate_date_format("EEEE")
            } else {
                translate_date_format("")
            }
        },
    };
    let formatted_text = format_civil(dt, fmt.as_str());
    replace_ampm(formatted_text.as_str())
}

} // verus!