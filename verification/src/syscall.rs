//! Syscall.
//!
//! System calls arrive over the serial interface as short ASCII
//! commands: a type character followed by separator-delimited decimal
//! fields. Parsing is total — malformed input is an error, never a
//! panic — and what the host does with a parsed call (setting its
//! real-time clock) is the host's business.

use vstd::prelude::*;

use vstd::slice::slice_subrange;
use vstd::string::StringSliceAdditionalSpecFns;

verus! {

/// ASCII `'D'`: a set-date command.
pub const SYSCALL_DATE: u8 = 68;

/// ASCII `'T'`: a set-time command.
pub const SYSCALL_TIME: u8 = 84;

/// ASCII `'/'`: the field separator of a date command.
pub const DATE_SEP: u8 = 47;

/// ASCII `':'`: the field separator of a time command.
pub const TIME_SEP: u8 = 58;

/// ASCII `'0'`.
pub const DIGIT_ZERO: u8 = 48;

/// ASCII `'9'`.
pub const DIGIT_NINE: u8 = 57;

#[derive(Debug, Copy, Clone, PartialEq, Eq, Structural)]
pub enum Error {
    ParseError,
    UnknownSyscall,
}

/// A calendar date: day of week, day of month, month, year.
#[derive(Debug, Copy, Clone, PartialEq, Eq, Structural)]
pub struct Date {
    pub day: u32,
    pub date: u32,
    pub month: u32,
    pub year: u32,
}

impl Date {
    pub fn new(day: u32, date: u32, month: u32, year: u32) -> (d: Date)
        ensures
            d == (Date { day, date, month, year }),
    {
        Date { day, date, month, year }
    }
}

/// A wall-clock time: hours, minutes, seconds.
#[derive(Debug, Copy, Clone, PartialEq, Eq, Structural)]
pub struct Time {
    pub hours: u32,
    pub minutes: u32,
    pub seconds: u32,
}

impl Time {
    pub fn new(hours: u32, minutes: u32, seconds: u32) -> (t: Time)
        ensures
            t == (Time { hours, minutes, seconds }),
    {
        Time { hours, minutes, seconds }
    }
}

#[derive(Debug, Copy, Clone, PartialEq, Eq, Structural)]
pub enum Syscall {
    /// Set the date - example: "D0/12/02/2019" (day in week, date,
    /// month, year)
    Date(Date),
    /// Set the time - example: "T12:21:11" (hours, minutes, seconds)
    Time(Time),
}

/// The host's real-time clock, implemented by whatever board the
/// kernel runs on. The two spec observers say what the clock holds;
/// each setter must install its value and leave the other alone.
pub trait Clock {
    /// The time the clock currently holds.
    spec fn time_spec(&self) -> Time;

    /// The date the clock currently holds.
    spec fn date_spec(&self) -> Date;

    fn get_time(&self) -> (t: Time)
        ensures
            t == self.time_spec();

    fn set_time(&mut self, t: &Time)
        ensures
            final(self).time_spec() == *t,
            final(self).date_spec() == old(self).date_spec();

    fn get_date(&self) -> (d: Date)
        ensures
            d == self.date_spec();

    fn set_date(&mut self, d: &Date)
        ensures
            final(self).date_spec() == *d,
            final(self).time_spec() == old(self).time_spec();
}

/// Every byte of `s` is an ASCII decimal digit.
pub open spec fn all_digits(s: Seq<u8>) -> bool {
    forall|i: int| 0 <= i < s.len() ==> DIGIT_ZERO <= #[trigger] s[i] <= DIGIT_NINE
}

/// The decimal value of a digit string, most significant first.
pub open spec fn dec_val(s: Seq<u8>) -> int
    decreases s.len(),
{
    if s.len() == 0 {
        0
    } else {
        dec_val(s.drop_last()) * 10 + (s.last() - DIGIT_ZERO)
    }
}

/// The `u32` a decimal field denotes: it must be non-empty, all
/// digits, and fit.
pub open spec fn parse_u32_spec(s: Seq<u8>) -> Option<u32> {
    if s.len() > 0 && all_digits(s) && dec_val(s) <= u32::MAX {
        Some(dec_val(s) as u32)
    } else {
        None
    }
}

/// The index of the first `sep` in `s`, or `s.len()` if there is none.
pub open spec fn find_sep(s: Seq<u8>, sep: u8) -> nat
    decreases s.len(),
{
    if s.len() == 0 {
        0
    } else if s[0] == sep {
        0
    } else {
        (1 + find_sep(s.drop_first(), sep)) as nat
    }
}

/// The decimal values of the `sep`-separated fields of `s`, or `None`
/// if any field is not a decimal `u32`.
pub open spec fn fields_vals(s: Seq<u8>, sep: u8) -> Option<Seq<u32>>
    decreases s.len(),
{
    let i = find_sep(s, sep) as int;
    if i < s.len() {
        match (parse_u32_spec(s.take(i)), fields_vals(s.subrange(i + 1, s.len() as int), sep)) {
            (Some(v), Some(rest)) => Some(seq![v] + rest),
            _ => None,
        }
    } else {
        match parse_u32_spec(s) {
            Some(v) => Some(seq![v]),
            None => None,
        }
    }
}

/// Field `k`, with missing trailing fields defaulting to zero.
pub open spec fn field_or_zero(vs: Seq<u32>, k: int) -> u32 {
    if 0 <= k < vs.len() {
        vs[k]
    } else {
        0
    }
}

/// A leap year of the proleptic Gregorian calendar.
pub open spec fn is_leap_year(year: u32) -> bool {
    year % 4 == 0 && (year % 100 != 0 || year % 400 == 0)
}

/// How many days the given month of the given year has.
pub open spec fn days_in_month(month: u32, year: u32) -> u32
    recommends
        1 <= month <= 12,
{
    if month == 1 || month == 3 || month == 5 || month == 7 || month == 8 || month == 10 || month
        == 12 {
        31
    } else if month == 4 || month == 6 || month == 9 || month == 11 {
        30
    } else if is_leap_year(year) {
        29
    } else {
        28
    }
}

/// The fields name a real calendar date, with the year within the
/// four digits a date command can carry.
pub open spec fn valid_date(date: u32, month: u32, year: u32) -> bool {
    &&& 1 <= month <= 12
    &&& 1 <= date <= days_in_month(month, year)
    &&& year <= 9999
}

/// The fields name a real wall-clock time.
pub open spec fn valid_time(hours: u32, minutes: u32, seconds: u32) -> bool {
    hours < 24 && minutes < 60 && seconds < 60
}

/// What a date command's body parses to: at most four `/`-separated
/// decimal fields — day in week, date, month, year — missing ones
/// zero; the date, month and year must name a real calendar date (the
/// day in week is carried but not checked).
pub open spec fn date_from_bytes_spec(s: Seq<u8>) -> Result<Date, Error> {
    match fields_vals(s, DATE_SEP) {
        Some(vs) => if vs.len() <= 4 && valid_date(
            field_or_zero(vs, 1),
            field_or_zero(vs, 2),
            field_or_zero(vs, 3),
        ) {
            Ok(
                Date {
                    day: field_or_zero(vs, 0),
                    date: field_or_zero(vs, 1),
                    month: field_or_zero(vs, 2),
                    year: field_or_zero(vs, 3),
                },
            )
        } else {
            Err(Error::ParseError)
        },
        None => Err(Error::ParseError),
    }
}

/// What a time command's body parses to: at most three `:`-separated
/// decimal fields — hours, minutes, seconds — missing ones zero; the
/// fields must name a real wall-clock time.
pub open spec fn time_from_bytes_spec(s: Seq<u8>) -> Result<Time, Error> {
    match fields_vals(s, TIME_SEP) {
        Some(vs) => if vs.len() <= 3 && valid_time(
            field_or_zero(vs, 0),
            field_or_zero(vs, 1),
            field_or_zero(vs, 2),
        ) {
            Ok(
                Time {
                    hours: field_or_zero(vs, 0),
                    minutes: field_or_zero(vs, 1),
                    seconds: field_or_zero(vs, 2),
                },
            )
        } else {
            Err(Error::ParseError)
        },
        None => Err(Error::ParseError),
    }
}

/// What a whole syscall string parses to: the first byte picks the
/// command, the rest is its body; an empty string or an unknown
/// command byte is `UnknownSyscall`.
pub open spec fn syscall_from_bytes_spec(s: Seq<u8>) -> Result<Syscall, Error> {
    if s.len() == 0 {
        Err(Error::UnknownSyscall)
    } else if s[0] == SYSCALL_DATE {
        match date_from_bytes_spec(s.drop_first()) {
            Ok(d) => Ok(Syscall::Date(d)),
            Err(e) => Err(e),
        }
    } else if s[0] == SYSCALL_TIME {
        match time_from_bytes_spec(s.drop_first()) {
            Ok(t) => Ok(Syscall::Time(t)),
            Err(e) => Err(e),
        }
    } else {
        Err(Error::UnknownSyscall)
    }
}

/// `find_sep` points at the first separator: everything before it is
/// no separator, and it is in range.
proof fn lemma_find_sep_charac(s: Seq<u8>, sep: u8)
    ensures
        find_sep(s, sep) <= s.len(),
        find_sep(s, sep) < s.len() ==> s[find_sep(s, sep) as int] == sep,
        forall|j: int| 0 <= j < find_sep(s, sep) ==> s[j] != sep,
    decreases s.len(),
{
    if s.len() == 0 {
    } else if s[0] == sep {
    } else {
        lemma_find_sep_charac(s.drop_first(), sep);
        assert forall|j: int| 0 <= j < find_sep(s, sep) implies s[j] != sep by {
            if j > 0 {
                assert(s.drop_first()[j - 1] == s[j]);
            }
        }
    }
}

/// Extending a digit prefix by one digit multiplies its value by ten
/// and adds the digit.
proof fn lemma_dec_val_step(s: Seq<u8>, i: int)
    requires
        0 <= i < s.len(),
    ensures
        dec_val(s.take(i + 1)) == dec_val(s.take(i)) * 10 + (s[i] - DIGIT_ZERO),
{
    assert(s.take(i + 1).drop_last() =~= s.take(i));
    assert(s.take(i + 1).last() == s[i]);
}

/// A digit string's value is never negative.
proof fn lemma_dec_val_nonneg(s: Seq<u8>)
    requires
        all_digits(s),
    ensures
        dec_val(s) >= 0,
    decreases s.len(),
{
    if s.len() > 0 {
        assert(all_digits(s.drop_last())) by {
            assert(forall|i: int|
                0 <= i < s.drop_last().len() ==> s.drop_last()[i] == #[trigger] s[i]);
        }
        lemma_dec_val_nonneg(s.drop_last());
    }
}

/// The value of a digit string dominates the value of any of its
/// prefixes, and values are never negative.
proof fn lemma_dec_val_prefix(s: Seq<u8>, i: int)
    requires
        all_digits(s),
        0 <= i <= s.len(),
    ensures
        0 <= dec_val(s.take(i)) <= dec_val(s),
    decreases s.len() - i,
{
    assert(all_digits(s.take(i))) by {
        assert(forall|j: int| 0 <= j < s.take(i).len() ==> s.take(i)[j] == #[trigger] s[j]);
    }
    lemma_dec_val_nonneg(s.take(i));
    if i == s.len() {
        assert(s.take(i) =~= s);
    } else {
        lemma_dec_val_step(s, i);
        lemma_dec_val_prefix(s, i + 1);
    }
}

/// Decode one non-empty decimal field.
fn parse_u32(bytes: &[u8]) -> (r: Option<u32>)
    ensures
        r == parse_u32_spec(bytes@),
{
    let n = bytes.len();
    if n == 0 {
        return None;
    }
    let mut acc: u64 = 0;
    let mut i: usize = 0;
    while i < n
        invariant
            0 <= i <= n,
            n == bytes@.len(),
            all_digits(bytes@.take(i as int)),
            acc == dec_val(bytes@.take(i as int)),
            acc <= u32::MAX,
        decreases n - i,
    {
        let c = bytes[i];
        if c < DIGIT_ZERO || c > DIGIT_NINE {
            assert(!all_digits(bytes@));
            return None;
        }
        proof {
            lemma_dec_val_step(bytes@, i as int);
            assert(all_digits(bytes@.take(i + 1)));
        }
        acc = acc * 10 + ((c - DIGIT_ZERO) as u64);
        i = i + 1;
        if acc > u32::MAX as u64 {
            proof {
                if all_digits(bytes@) {
                    lemma_dec_val_prefix(bytes@, i as int);
                }
            }
            return None;
        }
    }
    proof {
        assert(bytes@.take(n as int) =~= bytes@);
    }
    Some(acc as u32)
}

/// Decode the `sep`-separated decimal fields of `bytes`.
fn parse_fields(bytes: &[u8], sep: u8) -> (r: Option<Vec<u32>>)
    ensures
        r is Some <==> fields_vals(bytes@, sep) is Some,
        r matches Some(vs) ==> Some(vs@) == fields_vals(bytes@, sep),
    decreases bytes@.len(),
{
    let n = bytes.len();
    let mut i: usize = 0;
    while i < n && bytes[i] != sep
        invariant
            0 <= i <= n,
            n == bytes@.len(),
            forall|j: int| 0 <= j < i ==> bytes@[j] != sep,
        decreases n - i,
    {
        i = i + 1;
    }
    proof {
        lemma_find_sep_charac(bytes@, sep);
        assert(find_sep(bytes@, sep) == i);
    }
    if i < n {
        let head = slice_subrange(bytes, 0, i);
        let v = match parse_u32(head) {
            Some(v) => v,
            None => {
                return None;
            },
        };
        let rest = slice_subrange(bytes, i + 1, n);
        match parse_fields(rest, sep) {
            Some(mut vs) => {
                vs.insert(0, v);
                proof {
                    assert(vs@ =~= seq![v] + fields_vals(rest@, sep)->0);
                }
                Some(vs)
            },
            None => None,
        }
    } else {
        match parse_u32(bytes) {
            Some(v) => {
                let mut vs: Vec<u32> = Vec::new();
                vs.push(v);
                proof {
                    assert(vs@ =~= seq![v]);
                }
                Some(vs)
            },
            None => None,
        }
    }
}

/// Field `k` of the parsed values, zero when missing.
fn field_value(vs: &Vec<u32>, k: usize) -> (v: u32)
    ensures
        v == field_or_zero(vs@, k as int),
{
    if k < vs.len() {
        vs[k]
    } else {
        0
    }
}

/// Check that the fields name a real calendar date.
fn check_date(date: u32, month: u32, year: u32) -> (ok: bool)
    ensures
        ok == valid_date(date, month, year),
{
    if month < 1 || month > 12 || year > 9999 || date < 1 {
        return false;
    }
    let leap = year % 4 == 0 && (year % 100 != 0 || year % 400 == 0);
    let days: u32 = if month == 1 || month == 3 || month == 5 || month == 7 || month == 8 || month
        == 10 || month == 12 {
        31
    } else if month == 4 || month == 6 || month == 9 || month == 11 {
        30
    } else if leap {
        29
    } else {
        28
    };
    date <= days
}

/// Check that the fields name a real wall-clock time.
fn check_time(hours: u32, minutes: u32, seconds: u32) -> (ok: bool)
    ensures
        ok == valid_time(hours, minutes, seconds),
{
    hours < 24 && minutes < 60 && seconds < 60
}

impl Syscall {
    /// Apply the call to the host's clock: a time call sets exactly
    /// the time, a date call exactly the date, and nothing else.
    pub fn execute<C: Clock>(self, clock: &mut C)
        ensures
            self matches Syscall::Time(t) ==> final(clock).time_spec() == t
                && final(clock).date_spec() == old(clock).date_spec(),
            self matches Syscall::Date(d) ==> final(clock).date_spec() == d
                && final(clock).time_spec() == old(clock).time_spec(),
    {
        match self {
            Syscall::Date(date) => {
                clock.set_date(&date);
            },
            Syscall::Time(time) => {
                clock.set_time(&time);
            },
        }
    }

    /// Parse a syscall from the payload bytes of a completed frame.
    pub fn parse_bytes(bytes: &[u8]) -> (r: Result<Syscall, Error>)
        ensures
            r == syscall_from_bytes_spec(bytes@),
    {
        if bytes.len() == 0 {
            return Err(Error::UnknownSyscall);
        }
        let t = bytes[0];
        let body = slice_subrange(bytes, 1, bytes.len());
        proof {
            assert(body@ =~= bytes@.drop_first());
        }
        if t == SYSCALL_DATE {
            match Self::date_from_bytes(body) {
                Ok(d) => Ok(Syscall::Date(d)),
                Err(e) => Err(e),
            }
        } else if t == SYSCALL_TIME {
            match Self::time_from_bytes(body) {
                Ok(t) => Ok(Syscall::Time(t)),
                Err(e) => Err(e),
            }
        } else {
            Err(Error::UnknownSyscall)
        }
    }

    /// Parse a syscall from a string.
    pub fn from_str(s: &str) -> (r: Result<Syscall, Error>)
        ensures
            r == syscall_from_bytes_spec(s.spec_bytes()),
    {
        Self::parse_bytes(s.as_bytes())
    }

    /// Parse a date command body.
    pub fn date_from_bytes(bytes: &[u8]) -> (r: Result<Date, Error>)
        ensures
            r == date_from_bytes_spec(bytes@),
    {
        match parse_fields(bytes, DATE_SEP) {
            Some(vs) => {
                let date = field_value(&vs, 1);
                let month = field_value(&vs, 2);
                let year = field_value(&vs, 3);
                if vs.len() > 4 || !check_date(date, month, year) {
                    Err(Error::ParseError)
                } else {
                    Ok(Date { day: field_value(&vs, 0), date, month, year })
                }
            },
            None => Err(Error::ParseError),
        }
    }

    /// Parse a date command body from a string.
    pub fn date_from_str(s: &str) -> (r: Result<Date, Error>)
        ensures
            r == date_from_bytes_spec(s.spec_bytes()),
    {
        Self::date_from_bytes(s.as_bytes())
    }

    /// Parse a time command body.
    pub fn time_from_bytes(bytes: &[u8]) -> (r: Result<Time, Error>)
        ensures
            r == time_from_bytes_spec(bytes@),
    {
        match parse_fields(bytes, TIME_SEP) {
            Some(vs) => {
                let hours = field_value(&vs, 0);
                let minutes = field_value(&vs, 1);
                let seconds = field_value(&vs, 2);
                if vs.len() > 3 || !check_time(hours, minutes, seconds) {
                    Err(Error::ParseError)
                } else {
                    Ok(Time { hours, minutes, seconds })
                }
            },
            None => Err(Error::ParseError),
        }
    }

    /// Parse a time command body from a string.
    pub fn time_from_str(s: &str) -> (r: Result<Time, Error>)
        ensures
            r == time_from_bytes_spec(s.spec_bytes()),
    {
        Self::time_from_bytes(s.as_bytes())
    }
}

} // verus!
