//! The rolling policy of the log files.
//!
//! A [`RollingPolicy`] describes the files of a log directory: their names,
//! how often a new file is started, and how many of them are kept.
//!
//! The names of the files of a directory are:
//!
//! * `<stem>_<date>.<suffix>`, which is `next_20260926.log` for a daily
//!   rotation of a `next.log` file;
//! * `<stem>_<date>_<number>.<suffix>`, which is `next_20260926_0.log`, as
//!   soon as the files of a period are split by their size or as soon as the
//!   application starts a new file every time it starts;
//! * `<stem>.<suffix>`, which is `next.log`, when the files are never split by
//!   the time.

use std::fmt::Write;

use chrono::Datelike;

use vstd::prelude::*;

use crate::config::profiles::views;
use crate::logging::properties::{LogRotation, LoggingFileProperties};
use crate::text::{
    chars_of, concat, ends_with, ends_with_spec, equals, join3, lemma_lex_irreflexive,
    lemma_lex_transitive, lex_less, lex_lt, lower_spec, opt_view, slice, starts_with,
    starts_with_spec, string_of, to_ascii_lowercase, trim, trim_spec,
};

verus! {

broadcast use vstd::string::group_string_axioms;

/// The format of the date of a file name of a policy whose files are never
/// split by the time.
pub const DEFAULT_DATE_PATTERN: &'static str = "%Y%m%d";

/// The format of the date of the file names of a minutely rotation.
pub const MINUTELY_DATE_PATTERN: &'static str = "%Y%m%d_%H%M";

/// The format of the date of the file names of an hourly rotation.
pub const HOURLY_DATE_PATTERN: &'static str = "%Y%m%d_%H";

/// The format of the date of the file names of a daily and of a weekly
/// rotation.
pub const DAILY_DATE_PATTERN: &'static str = "%Y%m%d";

/// The property of the maximum size of a single log file.
pub const MAX_FILE_SIZE_PROPERTY: &'static str = "next.logging.file.max-file-size";

/// The property of the maximum total size of the log files.
pub const TOTAL_SIZE_CAP_PROPERTY: &'static str = "next.logging.file.total-size-cap";

/// The property of the time zone of the names of the log files.
pub const TIMEZONE_PROPERTY: &'static str = "next.logging.file.timezone";

/// The number of bytes of a kilobyte; the units of a size are binary.
pub const BYTES_PER_KILOBYTE: u64 = 1024;

/// Whether the character is an ASCII digit.
pub open spec fn is_digit(c: char) -> bool {
    '0' <= c && c <= '9'
}

/// The number of ASCII digits a text starts with.
pub open spec fn leading_digits(s: Seq<char>) -> nat
    decreases s.len(),
{
    if s.len() > 0 && is_digit(s[0]) {
        1 + leading_digits(s.drop_first())
    } else {
        0
    }
}

/// The value of a text of ASCII digits.
pub open spec fn digits_value(s: Seq<char>) -> nat
    decreases s.len(),
{
    if s.len() == 0 {
        0
    } else {
        digits_value(s.drop_last()) * 10 + ((s.last() as u32) - ('0' as u32)) as nat
    }
}

/// The number of bytes of a unit of a size, which is not case sensitive.
pub open spec fn unit_multiplier(unit: Seq<char>) -> Option<nat> {
    let u = lower_spec(unit);
    if u == ""@ || u == "b"@ {
        Some(1)
    } else if u == "k"@ || u == "kb"@ || u == "kib"@ {
        Some(1024)
    } else if u == "m"@ || u == "mb"@ || u == "mib"@ {
        Some(1024 * 1024)
    } else if u == "g"@ || u == "gb"@ || u == "gib"@ {
        Some(1024 * 1024 * 1024)
    } else if u == "t"@ || u == "tb"@ || u == "tib"@ {
        Some(1024 * 1024 * 1024 * 1024)
    } else {
        None
    }
}

/// The size a value describes: a number of bytes that is optionally followed
/// by a unit, or `None` when the value is no size or the size does not fit
/// in a `u64`.
pub open spec fn parse_size_spec(value: Seq<char>) -> Option<u64> {
    let v = trim_spec(value);
    let d = leading_digits(v);
    let number = v.take(d as int);
    if number.len() == 0 {
        None
    } else {
        match unit_multiplier(trim_spec(v.skip(d as int))) {
            None => None,
            Some(m) => if digits_value(number) * m <= u64::MAX {
                Some((digits_value(number) * m) as u64)
            } else {
                None
            },
        }
    }
}

/// The value of a longer text of digits is at least that of its prefix.
pub proof fn lemma_digits_value_prefix(s: Seq<char>, k: int)
    requires
        0 <= k <= s.len(),
    ensures
        digits_value(s.take(k)) <= digits_value(s),
    decreases s.len(),
{
    if k < s.len() {
        assert(s.drop_last().take(k) =~= s.take(k));
        lemma_digits_value_prefix(s.drop_last(), k);
    } else {
        assert(s.take(k) =~= s);
    }
}

/// Returns the value of a text of ASCII digits, or `None` when it does not fit
/// in a `u64`.
pub fn parse_digits(s: &Vec<char>) -> (r: Option<u64>)
    requires
        forall|i: int| 0 <= i < s.len() ==> is_digit(#[trigger] s@[i]),
    ensures
        match r {
            Some(v) => v == digits_value(s@),
            None => digits_value(s@) > u64::MAX,
        },
{
    let mut acc: u64 = 0;
    let mut i: usize = 0;
    assert(s@.take(0) =~= Seq::<char>::empty());
    while i < s.len()
        invariant
            i <= s.len(),
            forall|j: int| 0 <= j < s.len() ==> is_digit(#[trigger] s@[j]),
            acc == digits_value(s@.take(i as int)),
        decreases s.len() - i,
    {
        let d: u64 = (s[i] as u32 - '0' as u32) as u64;
        assert(s@.take(i + 1).drop_last() =~= s@.take(i as int));
        assert(s@.take(i + 1).last() == s@[i as int]);
        match acc.checked_mul(10) {
            None => {
                proof {
                    lemma_digits_value_prefix(s@, i + 1);
                }
                return None;
            },
            Some(t) => match t.checked_add(d) {
                None => {
                    proof {
                        lemma_digits_value_prefix(s@, i + 1);
                    }
                    return None;
                },
                Some(n) => {
                    acc = n;
                },
            },
        }
        i = i + 1;
    }
    assert(s@.take(i as int) =~= s@);
    Some(acc)
}

/// Returns the number of bytes of a unit of a size.
fn unit_bytes(unit: &Vec<char>) -> (r: Option<u64>)
    ensures
        match r {
            Some(m) => unit_multiplier(unit@) == Some(m as nat),
            None => unit_multiplier(unit@) is None,
        },
{
    let u = to_ascii_lowercase(unit);
    if equals(&u, &chars_of("")) || equals(&u, &chars_of("b")) {
        Some(1)
    } else if equals(&u, &chars_of("k")) || equals(&u, &chars_of("kb")) || equals(&u, &chars_of("kib")) {
        Some(BYTES_PER_KILOBYTE)
    } else if equals(&u, &chars_of("m")) || equals(&u, &chars_of("mb")) || equals(&u, &chars_of("mib")) {
        Some(1024 * 1024)
    } else if equals(&u, &chars_of("g")) || equals(&u, &chars_of("gb")) || equals(&u, &chars_of("gib")) {
        Some(1024 * 1024 * 1024)
    } else if equals(&u, &chars_of("t")) || equals(&u, &chars_of("tb")) || equals(&u, &chars_of("tib")) {
        Some(1024 * 1024 * 1024 * 1024)
    } else {
        None
    }
}

/// Returns the size the given value describes, or `None` when the value
/// cannot be read as a size.
///
/// A value is a number that is optionally followed by a unit, for example
/// `10MB` or `512KB`. The units are `B`, `KB`, `MB`, `GB` and `TB`, and they
/// are binary, so `1KB` is 1024 bytes. The units may be written as `KB` or as
/// `KiB`, and a number without a unit is a number of bytes.
pub fn parse_size(value: &str) -> (r: Option<u64>)
    ensures
        r == parse_size_spec(value@),
{
    let v = trim(&chars_of(value));
    let mut d: usize = 0;
    assert(v@.skip(0) =~= v@);
    while d < v.len() && '0' <= v[d] && v[d] <= '9'
        invariant
            d <= v.len(),
            leading_digits(v@) == d + leading_digits(v@.skip(d as int)),
            forall|j: int| 0 <= j < d ==> is_digit(#[trigger] v@[j]),
        decreases v.len() - d,
    {
        assert(v@.skip(d as int).drop_first() =~= v@.skip(d + 1));
        d = d + 1;
    }
    assert(leading_digits(v@.skip(d as int)) == 0);
    let number = slice(&v, 0, d);
    assert(number@ =~= v@.take(d as int));
    if number.len() == 0 {
        return None;
    }
    let unit = slice(&v, d, v.len());
    assert(unit@ =~= v@.skip(d as int));
    let multiplier: u64 = match unit_bytes(&trim(&unit)) {
        Some(m) => m,
        None => return None,
    };
    let n: u64 = match parse_digits(&number) {
        Some(n) => n,
        None => {
            proof {
                assert(digits_value(number@) * (multiplier as nat) >= digits_value(number@)) by (nonlinear_arith)
                    requires
                        multiplier >= 1,
                ;
            }
            return None;
        },
    };
    n.checked_mul(multiplier)
}

/// The name of a time zone of the IANA time zone database that
/// `chrono_tz::Tz` reads from the given text, or `None` when it reads none.
pub uninterp spec fn time_zone_name(name: Seq<char>) -> Option<Seq<char>>;

/// Reads a time zone of the IANA time zone database through the `FromStr`
/// of `chrono_tz::Tz`, and returns its name.
///
/// Claims that the result is a function of the text alone, the database
/// being part of the crate, and that a zone that is read is named by the
/// text itself: the table of the crate maps each name to the zone of that
/// name. Which texts name a zone is left to the database.
#[verifier::external_body]
fn parse_time_zone(name: &str) -> (r: Option<String>)
    ensures
        opt_view(r) == time_zone_name(name@),
        r matches Some(zone) ==> zone@ == name@,
{
    name.parse::<chrono_tz::Tz>().ok().map(|tz| tz.name().to_owned())
}

/// The time zone the names of the log files are dated in.
#[derive(Debug, Clone, PartialEq, Eq)]
pub enum LogTimeZone {
    /// The time zone of the process, which is what the timestamps of the
    /// records use.
    Local,
    /// UTC.
    Utc,
    /// A time zone of the IANA time zone database, such as `Asia/Shanghai`,
    /// by its name.
    Named(String),
}

impl LogTimeZone {
    /// Whether this is the given time zone of a name.
    pub open spec fn is_zone_of(&self, value: Seq<char>) -> bool {
        let v = lower_spec(trim_spec(value));
        if v == "local"@ || v == "system"@ || v == "default"@ {
            *self == LogTimeZone::Local
        } else if v == "utc"@ || v == "gmt"@ || v == "z"@ {
            *self == LogTimeZone::Utc
        } else {
            match time_zone_name(trim_spec(value)) {
                Some(n) => (*self matches LogTimeZone::Named(m) && m@ == n),
                None => false,
            }
        }
    }

    /// Whether a name designates a time zone.
    pub open spec fn is_zone_name(value: Seq<char>) -> bool {
        let v = lower_spec(trim_spec(value));
        ||| v == "local"@ || v == "system"@ || v == "default"@
        ||| v == "utc"@ || v == "gmt"@ || v == "z"@
        ||| time_zone_name(trim_spec(value)) is Some
    }

    /// Returns the time zone of the given name, or `None` when the name is
    /// not recognized: `local` and `utc` (with their aliases `system`,
    /// `default`, `gmt` and `z`) as well as the names of the IANA time zone
    /// database.
    pub fn parse(value: &str) -> (r: Option<Self>)
        ensures
            match r {
                Some(z) => z.is_zone_of(value@),
                None => !Self::is_zone_name(value@),
            },
    {
        let t = trim(&chars_of(value));
        let v = to_ascii_lowercase(&t);
        if equals(&v, &chars_of("local")) || equals(&v, &chars_of("system")) || equals(&v, &chars_of("default")) {
            Some(LogTimeZone::Local)
        } else if equals(&v, &chars_of("utc")) || equals(&v, &chars_of("gmt")) || equals(&v, &chars_of("z")) {
            Some(LogTimeZone::Utc)
        } else {
            match parse_time_zone(string_of(&t).as_str()) {
                Some(n) => Some(LogTimeZone::Named(n)),
                None => None,
            }
        }
    }
}

impl Default for LogTimeZone {
    /// The time zone of the process.
    fn default() -> (r: Self)
        ensures
            r == LogTimeZone::Local,
    {
        LogTimeZone::Local
    }
}

/// The default format of the date of the names of the files of a rotation.
pub open spec fn default_date_pattern_spec(rotation: LogRotation) -> Seq<char> {
    match rotation {
        LogRotation::Minutely => MINUTELY_DATE_PATTERN@,
        LogRotation::Hourly => HOURLY_DATE_PATTERN@,
        LogRotation::Daily | LogRotation::Weekly => DAILY_DATE_PATTERN@,
        LogRotation::Never => DEFAULT_DATE_PATTERN@,
    }
}

/// Returns the default format of the date of the names of the files of a
/// rotation.
pub fn default_date_pattern(rotation: LogRotation) -> (r: &'static str)
    ensures
        r@ == default_date_pattern_spec(rotation),
{
    match rotation {
        LogRotation::Minutely => MINUTELY_DATE_PATTERN,
        LogRotation::Hourly => HOURLY_DATE_PATTERN,
        LogRotation::Daily | LogRotation::Weekly => DAILY_DATE_PATTERN,
        LogRotation::Never => DEFAULT_DATE_PATTERN,
    }
}

/// The warning of a time zone that cannot be read.
pub open spec fn time_zone_warning_spec(time_zone: Seq<char>) -> Seq<char> {
    TIMEZONE_PROPERTY@ + " '"@ + time_zone + "' is not a time zone, using the time zone of the process"@
}

/// The warning of a size that cannot be read.
pub open spec fn size_warning_spec(property: Seq<char>, size: Seq<char>) -> Seq<char> {
    property + " '"@ + size + "' is not a size"@
}

/// The warnings of a configured time zone: one when it cannot be read.
pub open spec fn zone_warnings_spec(time_zone: Option<String>) -> Seq<Seq<char>> {
    match time_zone {
        Some(t) => if LogTimeZone::is_zone_name(t@) {
            Seq::empty()
        } else {
            seq![time_zone_warning_spec(t@)]
        },
        None => Seq::empty(),
    }
}

/// The warnings of a configured size: one when it cannot be read.
pub open spec fn size_warnings_spec(size: Option<String>, property: Seq<char>) -> Seq<Seq<char>> {
    match size {
        Some(s) => if parse_size_spec(s@) is Some {
            Seq::empty()
        } else {
            seq![size_warning_spec(property, s@)]
        },
        None => Seq::empty(),
    }
}

/// Returns the time zone of the given name, which is the time zone of the
/// process when there is no name or when the name is not recognized; a name
/// that is not recognized adds a warning.
pub fn resolve_time_zone(time_zone: Option<&str>, warnings: &mut Vec<String>) -> (r: LogTimeZone)
    ensures
        match time_zone {
            None => r == LogTimeZone::Local && final(warnings)@ == old(warnings)@,
            Some(t) => if LogTimeZone::is_zone_name(t@) {
                r.is_zone_of(t@) && final(warnings)@ == old(warnings)@
            } else {
                r == LogTimeZone::Local && views(final(warnings)@) == views(old(warnings)@).push(
                    time_zone_warning_spec(t@),
                )
            },
        },
{
    match time_zone {
        None => LogTimeZone::Local,
        Some(t) => match LogTimeZone::parse(t) {
            Some(zone) => zone,
            None => {
                let w = join3(TIMEZONE_PROPERTY, " '", t);
                let w = join3(w.as_str(), "' is not a time zone, using the time zone of the process", "");
                let ghost before = warnings@;
                warnings.push(w);
                proof {
                    reveal_strlit("");
                }
                assert(views(warnings@) =~= views(before).push(time_zone_warning_spec(t@)));
                LogTimeZone::Local
            },
        },
    }
}

/// Returns the size of the given value, which is `None` when there is no
/// value or when the value cannot be read as a size; a value that cannot be
/// read adds a warning that names the property.
pub fn resolve_size(size: Option<&str>, property: &str, warnings: &mut Vec<String>) -> (r: Option<u64>)
    ensures
        match size {
            None => r is None && final(warnings)@ == old(warnings)@,
            Some(s) => r == parse_size_spec(s@) && (if parse_size_spec(s@) is Some {
                final(warnings)@ == old(warnings)@
            } else {
                views(final(warnings)@) == views(old(warnings)@).push(size_warning_spec(property@, s@))
            }),
        },
{
    match size {
        None => None,
        Some(s) => match parse_size(s) {
            Some(n) => Some(n),
            None => {
                let w = join3(property, " '", s);
                let w = join3(w.as_str(), "' is not a size", "");
                let ghost before = warnings@;
                warnings.push(w);
                proof {
                    reveal_strlit("");
                }
                assert(views(warnings@) =~= views(before).push(size_warning_spec(property@, s@)));
                None
            },
        },
    }
}

/// Whether a character may be part of the date and the number of the name of
/// a log file.
pub open spec fn is_generated_char(c: char) -> bool {
    ('a' <= c && c <= 'z') || ('A' <= c && c <= 'Z') || ('0' <= c && c <= '9') || c == '-' || c
        == '_' || c == '.'
}

/// Whether the part of a name between the stem and the extension holds the
/// date and the number of a file: it starts with a digit and holds only
/// letters, digits, `-`, `_` and `.`.
pub open spec fn is_generated_part_spec(part: Seq<char>) -> bool {
    part.len() > 0 && is_digit(part[0]) && forall|i: int|
        0 <= i < part.len() ==> is_generated_char(#[trigger] part[i])
}

/// Returns whether the part of a name between the stem and the extension
/// holds the date and the number of a log file.
pub fn is_generated_part(part: &str) -> (r: bool)
    ensures
        r == is_generated_part_spec(part@),
{
    let chars = chars_of(part);
    if chars.len() == 0 || !('0' <= chars[0] && chars[0] <= '9') {
        return false;
    }
    let mut i: usize = 0;
    while i < chars.len()
        invariant
            i <= chars.len(),
            chars@ == part@,
            forall|j: int| 0 <= j < i ==> is_generated_char(#[trigger] chars@[j]),
        decreases chars.len() - i,
    {
        let c = chars[i];
        if !(('a' <= c && c <= 'z') || ('A' <= c && c <= 'Z') || ('0' <= c && c <= '9') || c == '-'
            || c == '_' || c == '.') {
            return false;
        }
        i = i + 1;
    }
    true
}

/// Whether every character of the text is an ASCII digit.
pub open spec fn all_digits(s: Seq<char>) -> bool {
    forall|i: int| 0 <= i < s.len() ==> is_digit(#[trigger] s[i])
}

/// The text of an unsigned integer without its optional `+` sign.
pub open spec fn unsigned_digits(s: Seq<char>) -> Seq<char> {
    if s.len() > 0 && s[0] == '+' {
        s.drop_first()
    } else {
        s
    }
}

/// The value of the unsigned integer a text holds, as `usize::from_str`
/// reads it: an optional `+` followed by at least one digit.
pub open spec fn parse_index_spec(s: Seq<char>) -> Option<usize> {
    let digits = unsigned_digits(s);
    if digits.len() > 0 && all_digits(digits) && digits_value(digits) <= usize::MAX {
        Some(digits_value(digits) as usize)
    } else {
        None
    }
}

/// Returns the unsigned integer a text holds.
pub fn parse_index(s: &Vec<char>) -> (r: Option<usize>)
    ensures
        r == parse_index_spec(s@),
{
    let digits = if s.len() > 0 && s[0] == '+' {
        let d = slice(s, 1, s.len());
        assert(d@ =~= s@.drop_first());
        d
    } else {
        s.clone()
    };
    if digits.len() == 0 {
        return None;
    }
    let mut i: usize = 0;
    while i < digits.len()
        invariant
            i <= digits.len(),
            digits@ == unsigned_digits(s@),
            forall|j: int| 0 <= j < i ==> is_digit(#[trigger] digits@[j]),
        decreases digits.len() - i,
    {
        if !('0' <= digits[i] && digits[i] <= '9') {
            assert(!is_digit(digits@[i as int]));
            assert(!all_digits(digits@));
            return None;
        }
        i = i + 1;
    }
    match parse_digits(&digits) {
        Some(v) => if v <= usize::MAX as u64 {
            Some(v as usize)
        } else {
            None
        },
        None => None,
    }
}

/// The start of a period of the rotation of the log files, in the time zone
/// of the policy, to the minute.
#[derive(Debug, Clone, Copy, PartialEq, Eq, Structural)]
pub struct LogPeriod {
    /// The year.
    pub year: i32,
    /// The month, from 1.
    pub month: u32,
    /// The day of the month, from 1.
    pub day: u32,
    /// The hour, from 0.
    pub hour: u32,
    /// The minute, from 0.
    pub minute: u32,
}

/// The text `chrono` writes for the start of a period with the given
/// `strftime` pattern, or `None` when the pattern holds an item that cannot be
/// written or the date does not exist.
pub uninterp spec fn formatted_period(
    pattern: Seq<char>,
    year: int,
    month: int,
    day: int,
    hour: int,
    minute: int,
) -> Option<Seq<char>>;

/// Writes the start of the period with the pattern, through
/// `chrono::NaiveDateTime::format`.
///
/// Claims that the text is a function of the pattern and of the period alone,
/// and that it is `None` where `chrono` reports an error.
#[verifier::external_body]
fn format_period(pattern: &str, period: LogPeriod) -> (r: Option<String>)
    ensures
        opt_view(r) == formatted_period(
            pattern@,
            period.year as int,
            period.month as int,
            period.day as int,
            period.hour as int,
            period.minute as int,
        ),
{
    let time = chrono::NaiveDate::from_ymd_opt(period.year, period.month, period.day)?.and_hms_opt(
        period.hour,
        period.minute,
        0,
    )?;
    let mut text = String::new();
    match write!(text, "{}", time.format(pattern)) {
        Ok(()) => Some(text),
        Err(_) => None,
    }
}

/// The Monday that starts the week of a date, as `chrono` computes it, or
/// `None` when the date does not exist or that Monday is out of the range of
/// `chrono`.
pub uninterp spec fn week_start_date(year: int, month: int, day: int) -> Option<(i32, u32, u32)>;

/// The number of days from 1970-01-01 to a date of the proleptic Gregorian
/// calendar, which `chrono` follows; the months count from 1.
pub open spec fn day_number(year: int, month: int, day: int) -> int {
    let y = if month <= 2 { year - 1 } else { year };
    let era = y / 400;
    let year_of_era = y - era * 400;
    let month_from_march = (month + 9) % 12;
    let day_of_year = (153 * month_from_march + 2) / 5 + day - 1;
    let day_of_era = year_of_era * 365 + year_of_era / 4 - year_of_era / 100 + day_of_year;
    era * 146097 + day_of_era - 719468
}

/// Whether a day is a Monday: 1970-01-01 was a Thursday.
pub open spec fn is_monday(year: int, month: int, day: int) -> bool {
    day_number(year, month, day) % 7 == 4
}

/// Returns the Monday that starts the week of a date, through
/// `chrono::NaiveDate::from_ymd_opt`, `Datelike::weekday` and
/// `NaiveDate::checked_sub_days`.
///
/// Claims that the Monday is a function of the date alone, which the calendar
/// of `chrono` makes it, and that it is a Monday on or at most six days
/// before the date. Whether it is `None`, which `chrono` gives for a date
/// that does not exist or a Monday out of its range, is not claimed.
#[verifier::external_body]
fn week_start(year: i32, month: u32, day: u32) -> (r: Option<(i32, u32, u32)>)
    ensures
        r == week_start_date(year as int, month as int, day as int),
        r matches Some((y, m, d)) ==> is_monday(y as int, m as int, d as int) && day_number(
            year as int,
            month as int,
            day as int,
        ) - 6 <= day_number(y as int, m as int, d as int) <= day_number(
            year as int,
            month as int,
            day as int,
        ),
{
    let date = chrono::NaiveDate::from_ymd_opt(year, month, day)?;
    let back = chrono::Days::new(u64::from(date.weekday().num_days_from_monday()));
    let monday = date.checked_sub_days(back)?;
    Some((monday.year(), monday.month(), monday.day()))
}

/// The start of the period of a rotation that a local time belongs to, to
/// the minute, given the Monday of its week: none for a rotation that never
/// splits the files by the time, else the start of its minute, of its hour,
/// of its day or of its week.
pub open spec fn period_start_spec(
    rotation: LogRotation,
    now: LogPeriod,
    monday: Option<(i32, u32, u32)>,
) -> Option<LogPeriod> {
    match rotation {
        LogRotation::Never => None,
        LogRotation::Minutely => Some(now),
        LogRotation::Hourly => Some(LogPeriod { minute: 0, ..now }),
        LogRotation::Daily => Some(LogPeriod { hour: 0, minute: 0, ..now }),
        LogRotation::Weekly => match monday {
            Some((year, month, day)) => Some(LogPeriod { year, month, day, hour: 0, minute: 0 }),
            None => Some(LogPeriod { hour: 0, minute: 0, ..now }),
        },
    }
}

/// Returns the start of the period of a rotation that a local time belongs
/// to, given the Monday of its week as `chrono` gives it. A week whose
/// Monday cannot be had starts on the day itself.
pub fn period_start(rotation: LogRotation, now: LogPeriod, monday: Option<(i32, u32, u32)>) -> (r: Option<LogPeriod>)
    ensures
        r == period_start_spec(rotation, now, monday),
{
    match rotation {
        LogRotation::Never => None,
        LogRotation::Minutely => Some(now),
        LogRotation::Hourly => Some(LogPeriod { minute: 0, ..now }),
        LogRotation::Daily => Some(LogPeriod { hour: 0, minute: 0, ..now }),
        LogRotation::Weekly => match monday {
            Some((year, month, day)) => Some(LogPeriod { year, month, day, hour: 0, minute: 0 }),
            None => Some(LogPeriod { hour: 0, minute: 0, ..now }),
        },
    }
}

/// The text of the start of a period with a pattern.
pub open spec fn period_text(pattern: Seq<char>, period: LogPeriod) -> Option<Seq<char>> {
    formatted_period(
        pattern,
        period.year as int,
        period.month as int,
        period.day as int,
        period.hour as int,
        period.minute as int,
    )
}

/// Returns whether two periods are the same.
pub fn same_period(a: Option<LogPeriod>, b: Option<LogPeriod>) -> (r: bool)
    ensures
        r == (a == b),
{
    match (a, b) {
        (Some(x), Some(y)) => x == y,
        (None, None) => true,
        _ => false,
    }
}

/// The file a writer writes to: the period and the number of its name, and
/// the bytes it holds.
#[derive(Debug, Clone, Copy, PartialEq, Eq, Structural)]
pub struct RollState {
    /// The period of the file.
    pub period: Option<LogPeriod>,
    /// The number of the file within its period.
    pub index: usize,
    /// The number of bytes the file holds.
    pub bytes: u64,
}

/// The end of the records that are complete in the bytes written so far:
/// the position after their last line feed, when there is one.
pub open spec fn records_end_spec(bytes: Seq<u8>) -> Option<int>
    decreases bytes.len(),
{
    if bytes.len() == 0 {
        None
    } else if bytes.last() == 10u8 {
        Some(bytes.len() as int)
    } else {
        records_end_spec(bytes.drop_last())
    }
}

/// Returns the end of the records that are complete in the given bytes: a
/// record is written as a whole, once its line feed has been written.
pub fn records_end(bytes: &Vec<u8>) -> (r: Option<usize>)
    ensures
        match r {
            Some(e) => records_end_spec(bytes@) == Some(e as int),
            None => records_end_spec(bytes@) is None,
        },
{
    let mut k: usize = bytes.len();
    assert(bytes@.take(k as int) =~= bytes@);
    while k > 0
        invariant
            k <= bytes.len(),
            records_end_spec(bytes@) == records_end_spec(bytes@.take(k as int)),
        decreases k,
    {
        assert(bytes@.take(k as int).drop_last() =~= bytes@.take(k - 1));
        if bytes[k - 1] == 10u8 {
            return Some(k);
        }
        k = k - 1;
    }
    None
}

/// A log file of the directory of a policy.
#[derive(Debug, Clone)]
pub struct LogFile {
    path: String,
    size: u64,
    modified: Option<i128>,
}

impl LogFile {
    /// The path of the file.
    pub closed spec fn path_spec(&self) -> Seq<char> {
        self.path@
    }

    /// The size of the file in bytes.
    pub closed spec fn size_spec(&self) -> u64 {
        self.size
    }

    /// The time the file was last modified, in nanoseconds from the Unix
    /// epoch, when it is known.
    pub closed spec fn modified_spec(&self) -> Option<i128> {
        self.modified
    }

    /// Creates a log file of the given path, size, and time of its last
    /// modification in nanoseconds from the Unix epoch, when it is known.
    pub fn new(path: String, size: u64, modified: Option<i128>) -> (r: Self)
        ensures
            r.path_spec() == path@,
            r.size_spec() == size,
            r.modified_spec() == modified,
    {
        LogFile { path, size, modified }
    }

    /// Returns the path of the file.
    pub fn path(&self) -> (r: &str)
        ensures
            r@ == self.path_spec(),
    {
        self.path.as_str()
    }

    /// Returns the time the file was last modified, when it is known.
    pub fn modified(&self) -> (r: Option<i128>)
        ensures
            r == self.modified_spec(),
    {
        self.modified
    }

    /// Returns the size of the file in bytes.
    pub fn size(&self) -> (r: u64)
        ensures
            r == self.size_spec(),
    {
        self.size
    }
}

/// The sum of two sizes, which stops at the largest size.
pub open spec fn saturating_sum(a: u64, b: u64) -> u64 {
    if a + b > u64::MAX {
        u64::MAX
    } else {
        (a + b) as u64
    }
}

/// What pruning has decided after the given files, newest first: the number
/// of the files it keeps, the total size of the files that are kept and of
/// the file that is written to, and the paths of the files it removes.
pub open spec fn prune_state(
    files: Seq<LogFile>,
    max_history: Option<usize>,
    total_size_cap: Option<u64>,
    active_size: u64,
) -> (nat, u64, Seq<Seq<char>>)
    decreases files.len(),
{
    if files.len() == 0 {
        (0, active_size, Seq::empty())
    } else {
        let (kept, total, removed) = prune_state(files.drop_last(), max_history, total_size_cap, active_size);
        let file = files.last();
        let exceeds_history = match max_history {
            Some(m) => kept >= m,
            None => kept >= usize::MAX,
        };
        let exceeds_cap = match total_size_cap {
            Some(cap) => saturating_sum(total, file.size_spec()) > cap,
            None => false,
        };
        if exceeds_history || exceeds_cap {
            (kept, total, removed.push(file.path_spec()))
        } else {
            (kept + 1, saturating_sum(total, file.size_spec()), removed)
        }
    }
}

/// The files of a history that are not the file that is written to.
pub open spec fn without_active(files: Seq<LogFile>, active: Option<Seq<char>>) -> Seq<LogFile> {
    files.filter(|f: LogFile| Some(f.path_spec()) != active)
}

/// Pruning keeps at most the number of files of the history, and keeps the
/// total size of the files it keeps and of the file that is written to within
/// the cap when that file fits in it.
pub proof fn lemma_prune_bounds(
    files: Seq<LogFile>,
    max_history: Option<usize>,
    total_size_cap: Option<u64>,
    active_size: u64,
)
    ensures
        forall|m: usize|
            max_history == Some(m) ==> #[trigger] prune_state(files, max_history, total_size_cap, active_size).0 <= m,
        forall|cap: u64|
            total_size_cap == Some(cap) && active_size <= cap ==> #[trigger] prune_state(
                files,
                max_history,
                total_size_cap,
                active_size,
            ).1 <= cap,
        prune_state(files, max_history, total_size_cap, active_size).0 + prune_state(
            files,
            max_history,
            total_size_cap,
            active_size,
        ).2.len() == files.len(),
    decreases files.len(),
{
    if files.len() > 0 {
        lemma_prune_bounds(files.drop_last(), max_history, total_size_cap, active_size);
    }
}

/// Whether a file was modified later than another: a known time is later
/// than an unknown one.
pub open spec fn modified_later(a: Option<i128>, b: Option<i128>) -> bool {
    match (a, b) {
        (Some(x), Some(y)) => x > y,
        (Some(_), None) => true,
        _ => false,
    }
}

/// Whether a file comes strictly before another in the history: the one
/// modified later first, and of two modified at the same time, the one
/// whose path comes later.
pub open spec fn newer(a: LogFile, b: LogFile) -> bool {
    modified_later(a.modified_spec(), b.modified_spec()) || (a.modified_spec() == b.modified_spec()
        && lex_lt(b.path_spec(), a.path_spec()))
}

/// Whether the files are in the order of the history: no file comes
/// strictly before one that precedes it.
pub open spec fn newest_first_spec(files: Seq<LogFile>) -> bool {
    forall|i: int, j: int| 0 <= i < j < files.len() ==> !newer(#[trigger] files[j], #[trigger] files[i])
}

/// The order of the history is transitive.
proof fn lemma_newer_transitive(a: LogFile, b: LogFile, c: LogFile)
    requires
        newer(a, b),
        newer(b, c),
    ensures
        newer(a, c),
{
    if a.modified_spec() == b.modified_spec() && b.modified_spec() == c.modified_spec() {
        lemma_lex_transitive(c.path_spec(), b.path_spec(), a.path_spec());
    }
}

/// Returns whether the first file comes strictly before the second in the
/// history.
fn is_newer(a: &LogFile, b: &LogFile) -> (r: bool)
    ensures
        r == newer(*a, *b),
{
    match (a.modified, b.modified) {
        (Some(x), Some(y)) => if x != y {
            return x > y;
        },
        (Some(_), None) => return true,
        (None, Some(_)) => return false,
        (None, None) => {},
    }
    lex_less(&chars_of(b.path.as_str()), &chars_of(a.path.as_str()))
}

/// Inserting a file after the files that do not come after it, and before
/// the first one it comes before, keeps the order of the history.
proof fn lemma_insert_keeps_order(before: Seq<LogFile>, p: int, file: LogFile)
    requires
        0 <= p <= before.len(),
        newest_first_spec(before),
        forall|k: int| 0 <= k < p ==> !newer(file, #[trigger] before[k]),
        p < before.len() ==> newer(file, before[p]),
    ensures
        newest_first_spec(before.insert(p, file)),
{
    let after = before.insert(p, file);
    assert forall|i: int, j: int| 0 <= i < j < after.len() implies !newer(
        #[trigger] after[j],
        #[trigger] after[i],
    ) by {
        if j < p {
            assert(after[i] == before[i] && after[j] == before[j]);
        } else if j == p {
            assert(after[i] == before[i]);
            assert(after[j] == file);
        } else if i == p {
            assert(after[i] == file);
            assert(after[j] == before[j - 1]);
            if newer(before[j - 1], file) {
                lemma_newer_transitive(before[j - 1], file, before[p]);
                if j - 1 == p {
                    lemma_lex_irreflexive(before[p].path_spec());
                }
            }
        } else if i < p {
            assert(after[i] == before[i] && after[j] == before[j - 1]);
        } else {
            assert(after[i] == before[i - 1] && after[j] == before[j - 1]);
        }
    }
}

/// Returns the files in the order of the history: the one modified last
/// first, and of files modified at the same time, the one whose path comes
/// last first.
pub fn newest_first(files: Vec<LogFile>) -> (r: Vec<LogFile>)
    ensures
        r@.to_multiset() == files@.to_multiset(),
        newest_first_spec(r@),
{
    broadcast use vstd::seq_lib::group_to_multiset_ensures, vstd::multiset::group_multiset_axioms;

    let ghost all = files@;
    let mut rest = files;
    let mut sorted: Vec<LogFile> = Vec::new();
    let ghost mut n: int = 0;
    while rest.len() > 0
        invariant
            0 <= n <= all.len(),
            rest@ == all.skip(n),
            sorted@.to_multiset() == all.take(n).to_multiset(),
            newest_first_spec(sorted@),
        decreases rest.len(),
    {
        assert(all.skip(n).len() > 0);
        let file = rest.remove(0);
        assert(file == all[n]);
        let mut p: usize = 0;
        while p < sorted.len()
            invariant
                p <= sorted.len(),
                forall|k: int| 0 <= k < p ==> !newer(file, #[trigger] sorted@[k]),
            ensures
                p <= sorted.len(),
                forall|k: int| 0 <= k < p ==> !newer(file, #[trigger] sorted@[k]),
                p < sorted.len() ==> newer(file, sorted@[p as int]),
            decreases sorted.len() - p,
        {
            if is_newer(&file, &sorted[p]) {
                break;
            }
            p = p + 1;
        }
        let ghost before = sorted@;
        sorted.insert(p, file);
        proof {
            let after = sorted@;
            assert(after =~= before.insert(p as int, file));
            assert(after.remove(p as int) =~= before);
            assert(after[p as int] == file);
            assert(all.take(n + 1) =~= all.take(n).push(file));
            after.to_multiset_ensures();
            assert(after.contains(file));
            assert(after.remove(p as int).to_multiset() == after.to_multiset().remove(after[p as int]));
            assert(after.to_multiset().remove(file) == before.to_multiset());
            assert(after.to_multiset().count(file) > 0);
            assert(after.to_multiset() =~= before.to_multiset().insert(file));
            lemma_insert_keeps_order(before, p as int, file);
            all.take(n).to_multiset_ensures();
            n = n + 1;
        }
        assert(rest@ =~= all.skip(n));
    }
    assert(all.take(n) =~= all);
    sorted
}

/// The policy the log files of a directory are rolled with.
///
/// The policy is created from the file properties of the logging
/// functionality with [`RollingPolicy::resolve`], and the values that cannot
/// be read fall back to the defaults of the properties.
#[derive(Debug, Clone)]
pub struct RollingPolicy {
    directory: String,
    stem: String,
    suffix: String,
    rotation: LogRotation,
    date_pattern: String,
    time_zone: LogTimeZone,
    max_history: Option<usize>,
    max_file_size: Option<u64>,
    total_size_cap: Option<u64>,
    roll_on_start: bool,
    clean_history_on_start: bool,
}

impl RollingPolicy {
    /// The directory of the files.
    pub closed spec fn directory_spec(&self) -> Seq<char> {
        self.directory@
    }

    /// The stem of the names of the files.
    pub closed spec fn stem_spec(&self) -> Seq<char> {
        self.stem@
    }

    /// The extension of the names of the files.
    pub closed spec fn suffix_spec(&self) -> Seq<char> {
        self.suffix@
    }

    /// How often a new file is started.
    pub closed spec fn rotation_spec(&self) -> LogRotation {
        self.rotation
    }

    /// The format of the date of the names of the files.
    pub closed spec fn date_pattern_spec(&self) -> Seq<char> {
        self.date_pattern@
    }

    /// The time zone the names are dated in.
    pub closed spec fn time_zone_spec(&self) -> LogTimeZone {
        self.time_zone
    }

    /// The number of rolled files that are kept.
    pub closed spec fn max_history_spec(&self) -> Option<usize> {
        self.max_history
    }

    /// The maximum size of a file.
    pub closed spec fn max_file_size_spec(&self) -> Option<u64> {
        self.max_file_size
    }

    /// The maximum total size of the files.
    pub closed spec fn total_size_cap_spec(&self) -> Option<u64> {
        self.total_size_cap
    }

    /// Whether a new file is started when the application starts.
    pub closed spec fn roll_on_start_spec(&self) -> bool {
        self.roll_on_start
    }

    /// Whether the existing files are removed when the application starts.
    pub closed spec fn clean_history_on_start_spec(&self) -> bool {
        self.clean_history_on_start
    }

    /// Whether the names of the files hold the number of the file of the
    /// period.
    pub open spec fn uses_index_spec(&self) -> bool {
        self.max_file_size_spec() is Some || self.roll_on_start_spec()
    }

    /// The part of the names of the files of a period that holds its date.
    pub open spec fn file_prefix_spec(&self, period: Option<LogPeriod>) -> Option<Seq<char>> {
        match period {
            None => Some(self.stem_spec()),
            Some(p) => match period_text(self.date_pattern_spec(), p) {
                Some(date) => Some(self.stem_spec() + "_"@ + date),
                None => None,
            },
        }
    }

    /// The name of the file of a period and number.
    pub open spec fn file_name_spec(&self, period: Option<LogPeriod>, index: usize) -> Option<Seq<char>> {
        match self.file_prefix_spec(period) {
            Some(prefix) => Some(
                if self.uses_index_spec() {
                    prefix + "_"@ + decimal_spec(index as nat)
                } else {
                    prefix
                } + "."@ + self.suffix_spec(),
            ),
            None => None,
        }
    }

    /// Whether a name is the name of a log file of the policy.
    pub open spec fn matches_spec(&self, name: Seq<char>) -> bool {
        let head = self.stem_spec() + "_"@;
        let tail = "."@ + self.suffix_spec();
        ||| name == self.stem_spec() + tail
        ||| starts_with_spec(name, head) && ends_with_spec(name.skip(head.len() as int), tail)
            && is_generated_part_spec(
            name.skip(head.len() as int).take(name.len() - head.len() - tail.len()),
        )
    }

    /// Returns the policy of the given file properties; the values that
    /// cannot be read are reported to `warnings` and fall back to their
    /// defaults.
    pub fn resolve(file: &LoggingFileProperties, warnings: &mut Vec<String>) -> (r: Self)
        ensures
            r.rotation_spec() == file.rotation_spec(),
            r.date_pattern_spec() == match file.date_format {
                Some(f) => f@,
                None => default_date_pattern_spec(file.rotation_spec()),
            },
            r.max_history_spec() == file.max_history,
            r.max_file_size_spec() == match file.max_file_size {
                Some(s) => parse_size_spec(s@),
                None => None,
            },
            r.total_size_cap_spec() == match file.total_size_cap {
                Some(s) => parse_size_spec(s@),
                None => None,
            },
            r.roll_on_start_spec() == (file.roll_on_start == Some(true)),
            r.clean_history_on_start_spec() == (file.clean_history_on_start == Some(true)),
            match file.timezone {
                None => r.time_zone_spec() == LogTimeZone::Local,
                Some(t) => if LogTimeZone::is_zone_name(t@) {
                    r.time_zone_spec().is_zone_of(t@)
                } else {
                    r.time_zone_spec() == LogTimeZone::Local
                },
            },
            views(final(warnings)@) == views(old(warnings)@) + zone_warnings_spec(file.timezone)
                + size_warnings_spec(file.max_file_size, MAX_FILE_SIZE_PROPERTY@) + size_warnings_spec(
                file.total_size_cap,
                TOTAL_SIZE_CAP_PROPERTY@,
            ),
    {
        let ghost start = views(warnings@);
        let directory = file.directory();
        let stem = file.stem();
        let suffix = file.suffix();
        let rotation = file.rotation();
        let date_pattern = match file.file_date_format() {
            Some(f) => f.to_owned(),
            None => default_date_pattern(rotation).to_owned(),
        };
        let time_zone = resolve_time_zone(file.timezone(), warnings);
        let ghost after_zone = views(warnings@);
        let max_file_size = resolve_size(file.max_file_size(), MAX_FILE_SIZE_PROPERTY, warnings);
        let ghost after_size = views(warnings@);
        let total_size_cap = resolve_size(file.total_size_cap(), TOTAL_SIZE_CAP_PROPERTY, warnings);
        assert(after_zone =~= start + zone_warnings_spec(file.timezone));
        assert(after_size =~= start + zone_warnings_spec(file.timezone) + size_warnings_spec(
            file.max_file_size,
            MAX_FILE_SIZE_PROPERTY@,
        ));
        assert(views(warnings@) =~= start + zone_warnings_spec(file.timezone) + size_warnings_spec(
            file.max_file_size,
            MAX_FILE_SIZE_PROPERTY@,
        ) + size_warnings_spec(file.total_size_cap, TOTAL_SIZE_CAP_PROPERTY@));
        RollingPolicy {
            directory,
            stem,
            suffix,
            rotation,
            date_pattern,
            time_zone,
            max_history: file.max_history(),
            max_file_size,
            total_size_cap,
            roll_on_start: file.roll_on_start(),
            clean_history_on_start: file.clean_history_on_start(),
        }
    }

    /// Returns the directory the log files are stored in.
    pub fn directory(&self) -> (r: &str)
        ensures
            r@ == self.directory_spec(),
    {
        self.directory.as_str()
    }

    /// Returns the stem of the names of the log files.
    pub fn stem(&self) -> (r: &str)
        ensures
            r@ == self.stem_spec(),
    {
        self.stem.as_str()
    }

    /// Returns the extension of the names of the log files.
    pub fn suffix(&self) -> (r: &str)
        ensures
            r@ == self.suffix_spec(),
    {
        self.suffix.as_str()
    }

    /// Returns how often a new log file is started.
    pub fn rotation(&self) -> (r: LogRotation)
        ensures
            r == self.rotation_spec(),
    {
        self.rotation
    }

    /// Returns the start of the period of the policy that a local time, to
    /// the minute, belongs to, or `None` when the files are never split by
    /// the time: the start of its minute, of its hour, of its day, or of the
    /// Monday of its week.
    pub fn period_of(&self, now: LogPeriod) -> (r: Option<LogPeriod>)
        ensures
            r == period_start_spec(
                self.rotation_spec(),
                now,
                week_start_date(now.year as int, now.month as int, now.day as int),
            ),
            self.rotation_spec() == LogRotation::Weekly ==> match r {
                Some(p) => p.hour == 0 && p.minute == 0 && ((is_monday(p.year as int, p.month as int, p.day as int)
                    && day_number(now.year as int, now.month as int, now.day as int) - 6 <= day_number(
                    p.year as int,
                    p.month as int,
                    p.day as int,
                ) <= day_number(now.year as int, now.month as int, now.day as int)) || (p.year == now.year
                    && p.month == now.month && p.day == now.day)),
                None => false,
            },
    {
        let monday = match self.rotation {
            LogRotation::Weekly => week_start(now.year, now.month, now.day),
            _ => None,
        };
        period_start(self.rotation, now, monday)
    }

    /// Returns the format of the date that is part of the names of the files.
    pub fn date_pattern(&self) -> (r: &str)
        ensures
            r@ == self.date_pattern_spec(),
    {
        self.date_pattern.as_str()
    }

    /// Returns the time zone the names of the files are dated in.
    pub fn time_zone(&self) -> (r: LogTimeZone)
        ensures
            r == self.time_zone_spec(),
    {
        match &self.time_zone {
            LogTimeZone::Local => LogTimeZone::Local,
            LogTimeZone::Utc => LogTimeZone::Utc,
            LogTimeZone::Named(n) => LogTimeZone::Named(n.clone()),
        }
    }

    /// Returns the number of the rolled files that are kept in addition to
    /// the file that is written to, or `None` when every file is kept.
    pub fn max_history(&self) -> (r: Option<usize>)
        ensures
            r == self.max_history_spec(),
    {
        self.max_history
    }

    /// Returns the maximum size of a single log file, or `None` when the file
    /// is not limited.
    pub fn max_file_size(&self) -> (r: Option<u64>)
        ensures
            r == self.max_file_size_spec(),
    {
        self.max_file_size
    }

    /// Returns the maximum total size of the log files, or `None` when the
    /// directory is not limited.
    pub fn total_size_cap(&self) -> (r: Option<u64>)
        ensures
            r == self.total_size_cap_spec(),
    {
        self.total_size_cap
    }

    /// Returns whether a new log file is started when the application starts.
    pub fn roll_on_start(&self) -> (r: bool)
        ensures
            r == self.roll_on_start_spec(),
    {
        self.roll_on_start
    }

    /// Returns whether the log files that already exist are removed when the
    /// application starts.
    pub fn clean_history_on_start(&self) -> (r: bool)
        ensures
            r == self.clean_history_on_start_spec(),
    {
        self.clean_history_on_start
    }

    /// Returns whether the names of the files hold the number of the file of
    /// the period, which separates the files of a period that are split by
    /// their size, and the files of the applications that start a new file
    /// every time they start.
    pub fn uses_index(&self) -> (r: bool)
        ensures
            r == self.uses_index_spec(),
    {
        self.max_file_size.is_some() || self.roll_on_start
    }

    /// Returns the part of the names of the files of the given period that
    /// holds the date of the period, which is the stem alone when the files
    /// are never split by the time, or `None` when the date pattern cannot be
    /// written.
    pub fn file_prefix(&self, period: Option<LogPeriod>) -> (r: Option<String>)
        ensures
            opt_view(r) == self.file_prefix_spec(period),
    {
        match period {
            None => Some(self.stem.clone()),
            Some(p) => match format_period(self.date_pattern.as_str(), p) {
                Some(date) => Some(join3(self.stem.as_str(), "_", date.as_str())),
                None => None,
            },
        }
    }

    /// Returns the name of the file of the given period and number, or `None`
    /// when the date pattern cannot be written.
    pub fn file_name(&self, period: Option<LogPeriod>, index: usize) -> (r: Option<String>)
        ensures
            opt_view(r) == self.file_name_spec(period, index),
    {
        let prefix = match self.file_prefix(period) {
            Some(p) => p,
            None => return None,
        };
        let mut name = chars_of(prefix.as_str());
        if self.uses_index() {
            name = concat(&name, &chars_of("_"));
            name = concat(&name, &decimal(index as u64));
        }
        name = concat(&name, &chars_of("."));
        name = concat(&name, &chars_of(self.suffix.as_str()));
        Some(string_of(&name))
    }

    /// Returns whether the given name is the name of a log file of this
    /// policy: `<stem>.<suffix>`, or `<stem>_<part>.<suffix>` where the part
    /// holds a date and a number, so that `next_notes.log` is not a log file
    /// of the policy of a `next.log` file.
    pub fn matches(&self, name: &str) -> (r: bool)
        ensures
            r == self.matches_spec(name@),
    {
        let n = chars_of(name);
        let tail = concat(&chars_of("."), &chars_of(self.suffix.as_str()));
        let whole = concat(&chars_of(self.stem.as_str()), &tail);
        if equals(&n, &whole) {
            return true;
        }
        let head = concat(&chars_of(self.stem.as_str()), &chars_of("_"));
        if !starts_with(&n, &head) {
            return false;
        }
        let rest = slice(&n, head.len(), n.len());
        assert(rest@ =~= n@.skip(head@.len() as int));
        if !ends_with(&rest, &tail) {
            return false;
        }
        let part = slice(&rest, 0, rest.len() - tail.len());
        assert(part@ =~= n@.skip(head@.len() as int).take(n@.len() - head@.len() - tail@.len()));
        is_generated_part(string_of(&part).as_str())
    }

    /// The number the file of the given name has among the files of the
    /// period, when it is one of them.
    pub open spec fn file_index_spec(&self, period: Option<LogPeriod>, name: Seq<char>) -> Option<usize> {
        match self.file_prefix_spec(period) {
            Some(prefix) => {
                let head = prefix + "_"@;
                let tail = "."@ + self.suffix_spec();
                if starts_with_spec(name, head) && ends_with_spec(name.skip(head.len() as int), tail) {
                    parse_index_spec(name.skip(head.len() as int).take(name.len() - head.len() - tail.len()))
                } else {
                    None
                }
            },
            None => None,
        }
    }

    /// The highest number of the files of the period among the given names.
    pub open spec fn highest_index_spec(&self, period: Option<LogPeriod>, names: Seq<Seq<char>>) -> Option<usize>
        decreases names.len(),
    {
        if names.len() == 0 {
            None
        } else {
            let rest = self.highest_index_spec(period, names.drop_last());
            match (self.file_index_spec(period, names.last()), rest) {
                (Some(i), Some(j)) => Some(if i > j { i } else { j }),
                (Some(i), None) => Some(i),
                (None, _) => rest,
            }
        }
    }

    /// The number of the first file a writer opens for the period: the
    /// highest number among the files of the period that exist, or the next
    /// one when a new file is started every time the application starts, and
    /// the first number when there is none or the names hold no number.
    pub open spec fn start_index_spec(&self, period: Option<LogPeriod>, names: Seq<Seq<char>>) -> usize {
        if !self.uses_index_spec() {
            0
        } else {
            match self.highest_index_spec(period, names) {
                Some(i) => if self.roll_on_start_spec() {
                    if i == usize::MAX {
                        i
                    } else {
                        (i + 1) as usize
                    }
                } else {
                    i
                },
                None => 0,
            }
        }
    }

    /// Returns the number of the first file a writer opens for the period,
    /// given the names of the files of the directory.
    pub fn start_index(&self, period: Option<LogPeriod>, names: &Vec<String>) -> (r: usize)
        ensures
            r == self.start_index_spec(period, views(names@)),
    {
        if !self.uses_index() {
            return 0;
        }
        let mut highest: Option<usize> = None;
        let mut k: usize = 0;
        while k < names.len()
            invariant
                k <= names.len(),
                highest == self.highest_index_spec(period, views(names@).take(k as int)),
            decreases names.len() - k,
        {
            proof {
                assert(views(names@).take(k + 1).drop_last() =~= views(names@).take(k as int));
                assert(views(names@).take(k + 1).last() == names@[k as int]@);
            }
            let found = self.file_index(period, names[k].as_str());
            highest = match (found, highest) {
                (Some(i), Some(j)) => Some(if i > j { i } else { j }),
                (Some(i), None) => Some(i),
                (None, h) => h,
            };
            k = k + 1;
        }
        assert(views(names@).take(k as int) =~= views(names@));
        match highest {
            Some(i) => if self.roll_on_start() {
                i.saturating_add(1)
            } else {
                i
            },
            None => 0,
        }
    }

    /// Whether a writer that writes to the file of the state starts a new
    /// file before it writes a record of the given length in the period: it
    /// does when the period changed, and when the record would take a file
    /// that holds something over the maximum size.
    pub open spec fn should_roll_spec(&self, state: RollState, period: Option<LogPeriod>, length: u64) -> bool {
        state.period != period || match self.max_file_size_spec() {
            Some(max) => state.bytes > 0 && saturating_sum(state.bytes, length) > max,
            None => false,
        }
    }

    /// Returns whether a writer that writes to the file of the state starts
    /// a new file before it writes a record of the given length in the
    /// period.
    pub fn should_roll(&self, state: &RollState, period: Option<LogPeriod>, length: u64) -> (r: bool)
        ensures
            r == self.should_roll_spec(*state, period, length),
    {
        if !same_period(state.period, period) {
            return true;
        }
        match self.max_file_size {
            Some(max) => state.bytes > 0 && state.bytes.saturating_add(length) > max,
            None => false,
        }
    }

    /// Returns the number of the file a writer starts for the period when it
    /// rolls: the next number within the same period when the files are
    /// numbered, else the first one.
    pub fn next_index(&self, state: &RollState, period: Option<LogPeriod>) -> (r: usize)
        ensures
            r == if self.uses_index_spec() && state.period == period {
                if state.index == usize::MAX {
                    state.index
                } else {
                    (state.index + 1) as usize
                }
            } else {
                0
            },
    {
        if self.uses_index() && same_period(state.period, period) {
            state.index.saturating_add(1)
        } else {
            0
        }
    }

    /// Returns the number the file of the given period has, or `None` when
    /// the name is not the name of a file of the period (or the date pattern
    /// cannot be written).
    pub fn file_index(&self, period: Option<LogPeriod>, name: &str) -> (r: Option<usize>)
        ensures
            r == self.file_index_spec(period, name@),
    {
        let prefix = match self.file_prefix(period) {
            Some(p) => p,
            None => return None,
        };
        let n = chars_of(name);
        let head = concat(&chars_of(prefix.as_str()), &chars_of("_"));
        let tail = concat(&chars_of("."), &chars_of(self.suffix.as_str()));
        if !starts_with(&n, &head) {
            return None;
        }
        let rest = slice(&n, head.len(), n.len());
        assert(rest@ =~= n@.skip(head@.len() as int));
        if !ends_with(&rest, &tail) {
            return None;
        }
        let index = slice(&rest, 0, rest.len() - tail.len());
        assert(index@ =~= n@.skip(head@.len() as int).take(n@.len() - head@.len() - tail@.len()));
        parse_index(&index)
    }

    /// Returns the paths of the files of the history that pruning removes.
    ///
    /// The files are those of the directory, newest first, and the file that
    /// is written to is never removed: the other files are kept, newest first,
    /// as long as their number stays within the history and their total size,
    /// together with the size of the file that is written to, within the
    /// cap. Nothing is removed when neither is configured.
    pub fn files_to_remove(&self, files: &Vec<LogFile>, active: Option<&str>, active_size: u64) -> (r: Vec<String>)
        ensures
            views(r@) == if self.max_history_spec() is None && self.total_size_cap_spec() is None {
                Seq::empty()
            } else {
                prune_state(
                    without_active(files@, match active {
                        Some(a) => Some(a@),
                        None => None,
                    }),
                    self.max_history_spec(),
                    self.total_size_cap_spec(),
                    active_size,
                ).2
            },
    {
        let mut removed: Vec<String> = Vec::new();
        if self.max_history.is_none() && self.total_size_cap.is_none() {
            assert(views(removed@) =~= Seq::<Seq<char>>::empty());
            return removed;
        }
        let ghost act = match active {
            Some(a) => Some(a@),
            None => None,
        };
        let ghost considered = without_active(files@, act);
        let mut kept: usize = 0;
        let mut total: u64 = active_size;
        let mut i: usize = 0;
        proof {
            assert(files@.take(0) =~= Seq::<LogFile>::empty());
            assert(without_active(files@.take(0), act) =~= Seq::<LogFile>::empty());
            assert(views(removed@) =~= Seq::<Seq<char>>::empty());
        }
        while i < files.len()
            invariant
                i <= files.len(),
                kept <= i,
                act == match active {
                    Some(a) => Some(a@),
                    None => None,
                },
                prune_state(
                    without_active(files@.take(i as int), act),
                    self.max_history_spec(),
                    self.total_size_cap_spec(),
                    active_size,
                ) == (kept as nat, total, views(removed@)),
            decreases files.len() - i,
        {
            let file = &files[i];
            proof {
                assert(files@.take(i + 1) =~= files@.take(i as int).push(files@[i as int]));
                reveal_with_fuel(Seq::<_>::filter, 1);
                assert(files@.take(i + 1).drop_last() =~= files@.take(i as int));
            }
            let is_active = match active {
                Some(a) => equals(&chars_of(file.path.as_str()), &chars_of(a)),
                None => false,
            };
            if !is_active {
                let ghost before = removed@;
                let exceeds_history = match self.max_history {
                    Some(m) => kept >= m,
                    None => kept >= usize::MAX,
                };
                let sum: u64 = if total > u64::MAX - file.size {
                    u64::MAX
                } else {
                    total + file.size
                };
                let exceeds_cap = match self.total_size_cap {
                    Some(cap) => sum > cap,
                    None => false,
                };
                let ghost prev = without_active(files@.take(i as int), act);
                assert(without_active(files@.take(i + 1), act) =~= prev.push(*file));
                assert(without_active(files@.take(i + 1), act).drop_last() =~= prev);
                if exceeds_history || exceeds_cap {
                    removed.push(file.path.clone());
                    assert(views(removed@) =~= views(before).push(file.path@));
                } else {
                    kept = kept + 1;
                    total = sum;
                }
            } else {
                assert(without_active(files@.take(i + 1), act) =~= without_active(files@.take(i as int), act));
            }
            i = i + 1;
        }
        assert(files@.take(i as int) =~= files@);
        removed
    }
}

/// The decimal text of a number.
pub open spec fn decimal_spec(n: nat) -> Seq<char>
    decreases n,
{
    if n < 10 {
        seq![digit_char(n)]
    } else {
        decimal_spec(n / 10).push(digit_char(n % 10))
    }
}

/// The ASCII digit of a number below ten.
pub open spec fn digit_char(n: nat) -> char {
    if n == 0 {
        '0'
    } else if n == 1 {
        '1'
    } else if n == 2 {
        '2'
    } else if n == 3 {
        '3'
    } else if n == 4 {
        '4'
    } else if n == 5 {
        '5'
    } else if n == 6 {
        '6'
    } else if n == 7 {
        '7'
    } else if n == 8 {
        '8'
    } else {
        '9'
    }
}

/// Returns the ASCII digit of a number below ten.
fn digit(n: u64) -> (r: char)
    requires
        n < 10,
    ensures
        r == digit_char(n as nat),
{
    if n == 0 {
        '0'
    } else if n == 1 {
        '1'
    } else if n == 2 {
        '2'
    } else if n == 3 {
        '3'
    } else if n == 4 {
        '4'
    } else if n == 5 {
        '5'
    } else if n == 6 {
        '6'
    } else if n == 7 {
        '7'
    } else if n == 8 {
        '8'
    } else {
        '9'
    }
}

/// Returns the decimal text of a number.
pub fn decimal(n: u64) -> (r: Vec<char>)
    ensures
        r@ == decimal_spec(n as nat),
    decreases n,
{
    if n < 10 {
        vec![digit(n)]
    } else {
        let mut r = decimal(n / 10);
        r.push(digit(n % 10));
        r
    }
}


/// Pruning removes only the paths of the files it is given.
pub proof fn lemma_prune_removes_given_files(
    files: Seq<LogFile>,
    max_history: Option<usize>,
    total_size_cap: Option<u64>,
    active_size: u64,
)
    ensures
        forall|i: int|
            0 <= i < prune_state(files, max_history, total_size_cap, active_size).2.len() ==> exists|k: int|
                0 <= k < files.len() && #[trigger] prune_state(files, max_history, total_size_cap, active_size).2[i]
                    == files[k].path_spec(),
    decreases files.len(),
{
    if files.len() > 0 {
        lemma_prune_removes_given_files(files.drop_last(), max_history, total_size_cap, active_size);
        let before = prune_state(files.drop_last(), max_history, total_size_cap, active_size).2;
        let after = prune_state(files, max_history, total_size_cap, active_size).2;
        assert forall|i: int| 0 <= i < after.len() implies exists|k: int|
            0 <= k < files.len() && #[trigger] after[i] == files[k].path_spec() by {
            if i < before.len() {
                let k = choose|k: int| 0 <= k < files.drop_last().len() && before[i] == files.drop_last()[k].path_spec();
                assert(files[k] == files.drop_last()[k]);
            } else {
                assert(after[i] == files[files.len() - 1].path_spec());
            }
        }
    }
}

/// The file that is written to is never removed by pruning.
pub proof fn lemma_prune_keeps_the_active_file(
    files: Seq<LogFile>,
    active: Seq<char>,
    max_history: Option<usize>,
    total_size_cap: Option<u64>,
    active_size: u64,
)
    ensures
        !prune_state(without_active(files, Some(active)), max_history, total_size_cap, active_size).2.contains(active),
{
    let considered = without_active(files, Some(active));
    lemma_prune_removes_given_files(considered, max_history, total_size_cap, active_size);
    let removed = prune_state(considered, max_history, total_size_cap, active_size).2;
    if removed.contains(active) {
        let i = choose|i: int| 0 <= i < removed.len() && removed[i] == active;
        let k = choose|k: int| 0 <= k < considered.len() && #[trigger] removed[i] == considered[k].path_spec();
        files.filter_lemma(|f: LogFile| Some(f.path_spec()) != Some(active));
        assert(Some(considered[k].path_spec()) != Some(active));
    }
}

} // verus!
