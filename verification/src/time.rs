//! Capture timestamps as plain UTC wall-clock calendar fields, a linear
//! seconds scale for gap computation, and the parser for the textual
//! datetime format found in embedded photo metadata.

use vstd::prelude::*;
use crate::media::MediaType;
use crate::strutil::{digit_val, is_digit_char, ws_char};

verus! {

/// An instant on the proleptic Gregorian calendar, as UTC wall-clock fields.
/// The supported range is year 1 through year 9999, so that years always
/// print as four digits.
#[derive(Clone, Copy, Debug, PartialEq, Eq, Structural)]
pub struct Timestamp {
    pub year: u16,
    pub month: u8,
    pub day: u8,
    pub hour: u8,
    pub minute: u8,
    pub second: u8,
}

pub open spec fn is_leap_year(y: int) -> bool {
    y % 4 == 0 && (y % 100 != 0 || y % 400 == 0)
}

/// Number of days in month `m` (1-based) of year `y`; 0 for a month
/// outside 1..=12.
pub open spec fn days_in_month(y: int, m: int) -> int {
    if m == 2 {
        if is_leap_year(y) {
            29
        } else {
            28
        }
    } else if m == 4 || m == 6 || m == 9 || m == 11 {
        30
    } else if 1 <= m <= 12 {
        31
    } else {
        0
    }
}

/// Days of a year that lie strictly before the first day of month `m`;
/// 0 for a month outside 2..=12.
pub open spec fn days_before_month(leap: bool, m: int) -> int {
    let feb = if leap { 29int } else { 28int };
    if m == 2 {
        31
    } else if m == 3 {
        31 + feb
    } else if m == 4 {
        62 + feb
    } else if m == 5 {
        92 + feb
    } else if m == 6 {
        123 + feb
    } else if m == 7 {
        153 + feb
    } else if m == 8 {
        184 + feb
    } else if m == 9 {
        215 + feb
    } else if m == 10 {
        245 + feb
    } else if m == 11 {
        276 + feb
    } else if m == 12 {
        306 + feb
    } else {
        0
    }
}

/// Days on the proleptic Gregorian calendar that lie strictly before
/// January 1 of year `y`, counted from January 1 of year 1 (0 for y <= 1).
pub open spec fn days_before_year(y: int) -> int {
    if y < 1 {
        0
    } else {
        365 * (y - 1) + (y - 1) / 4 - (y - 1) / 100 + (y - 1) / 400
    }
}

/// Position of a timestamp on a linear scale of seconds counted from
/// 0001-01-01 00:00:00: the difference of two values is the gap in seconds
/// between the two instants.
pub open spec fn secs_of(t: Timestamp) -> int {
    86400 * (days_before_year(t.year as int) + days_before_month(
        is_leap_year(t.year as int),
        t.month as int,
    ) + (if t.day < 1 {
        0int
    } else {
        t.day as int - 1
    })) + 3600 * (t.hour as int) + 60 * (t.minute as int) + (t.second as int)
}

/// Leap year test on the executable side.
pub fn leap_year(y: u16) -> (r: bool)
    ensures
        r == is_leap_year(y as int),
{
    y % 4 == 0 && (y % 100 != 0 || y % 400 == 0)
}

/// Number of days in month `m` of year `y` on the executable side.
pub fn days_in_month_of(y: u16, m: u8) -> (r: u8)
    ensures
        r as int == days_in_month(y as int, m as int),
{
    if m == 2 {
        if leap_year(y) {
            29
        } else {
            28
        }
    } else if m == 4 || m == 6 || m == 9 || m == 11 {
        30
    } else if 1 <= m && m <= 12 {
        31
    } else {
        0
    }
}

fn days_before_month_of(leap: bool, m: u8) -> (r: u32)
    ensures
        r as int == days_before_month(leap, m as int),
{
    let feb: u32 = if leap {
        29
    } else {
        28
    };
    if m == 2 {
        31
    } else if m == 3 {
        31 + feb
    } else if m == 4 {
        62 + feb
    } else if m == 5 {
        92 + feb
    } else if m == 6 {
        123 + feb
    } else if m == 7 {
        153 + feb
    } else if m == 8 {
        184 + feb
    } else if m == 9 {
        215 + feb
    } else if m == 10 {
        245 + feb
    } else if m == 11 {
        276 + feb
    } else if m == 12 {
        306 + feb
    } else {
        0
    }
}

impl Timestamp {
    /// A calendar-valid timestamp: month and day exist in the given year,
    /// time fields are in range, and the year has four digits.
    pub open spec fn wf(self) -> bool {
        &&& 1 <= self.year <= 9999
        &&& 1 <= self.month <= 12
        &&& 1 <= self.day <= days_in_month(self.year as int, self.month as int)
        &&& self.hour <= 23
        &&& self.minute <= 59
        &&& self.second <= 59
    }

    /// Builds a timestamp from calendar fields, rejecting anything that is
    /// not a real calendar date or a valid time of day.
    pub fn new(year: u16, month: u8, day: u8, hour: u8, minute: u8, second: u8) -> (r: Option<
        Timestamp,
    >)
        ensures
            ({
                let c = Timestamp { year, month, day, hour, minute, second };
                if c.wf() {
                    r == Some(c)
                } else {
                    r == None::<Timestamp>
                }
            }),
    {
        if year < 1 || year > 9999 || month < 1 || month > 12 || hour > 23 || minute > 59
            || second > 59 {
            return None;
        }
        if day < 1 || day > days_in_month_of(year, month) {
            return None;
        }
        Some(Timestamp { year, month, day, hour, minute, second })
    }

    /// This timestamp's position on the linear seconds scale.
    pub fn epoch_secs(&self) -> (r: u64)
        ensures
            r as int == secs_of(*self),
    {
        let y = self.year as u64;
        let days_y: u64 = if y < 1 {
            0
        } else {
            let d = y - 1;
            proof {
                assert(d / 100 <= d) by (nonlinear_arith);
            }
            365 * d + d / 4 - d / 100 + d / 400
        };
        let days: u64 = days_y + days_before_month_of(leap_year(self.year), self.month) as u64 + (
        if self.day < 1 {
            0
        } else {
            (self.day - 1) as u64
        });
        86400 * days + 3600 * (self.hour as u64) + 60 * (self.minute as u64) + (self.second as u64)
    }
}

/// The sequence without its leading whitespace.
pub open spec fn trim_front(s: Seq<char>) -> Seq<char>
    decreases s.len(),
{
    if s.len() > 0 && ws_char(s.first()) {
        trim_front(s.drop_first())
    } else {
        s
    }
}

/// The sequence without its trailing whitespace.
pub open spec fn trim_back(s: Seq<char>) -> Seq<char>
    decreases s.len(),
{
    if s.len() > 0 && ws_char(s.last()) {
        trim_back(s.drop_last())
    } else {
        s
    }
}

/// The sequence without leading and trailing whitespace.
pub open spec fn trimmed(s: Seq<char>) -> Seq<char> {
    trim_back(trim_front(s))
}

/// The two-digit number at position `i`.
pub open spec fn num2_at(s: Seq<char>, i: int) -> int
    recommends
        0 <= i && i + 2 <= s.len(),
{
    10 * digit_val(s[i]) + digit_val(s[i + 1])
}

/// The four-digit number at position `i`.
pub open spec fn num4_at(s: Seq<char>, i: int) -> int
    recommends
        0 <= i && i + 4 <= s.len(),
{
    1000 * digit_val(s[i]) + 100 * digit_val(s[i + 1]) + 10 * digit_val(s[i + 2]) + digit_val(
        s[i + 3],
    )
}

/// The shape "YYYY:MM:DD HH:MM:SS": exactly 19 characters, decimal digits
/// and separators in their places.
pub open spec fn datetime_shape(s: Seq<char>) -> bool {
    &&& s.len() == 19
    &&& is_digit_char(s[0]) && is_digit_char(s[1]) && is_digit_char(s[2]) && is_digit_char(s[3])
    &&& s[4] == ':'
    &&& is_digit_char(s[5]) && is_digit_char(s[6])
    &&& s[7] == ':'
    &&& is_digit_char(s[8]) && is_digit_char(s[9])
    &&& s[10] == ' '
    &&& is_digit_char(s[11]) && is_digit_char(s[12])
    &&& s[13] == ':'
    &&& is_digit_char(s[14]) && is_digit_char(s[15])
    &&& s[16] == ':'
    &&& is_digit_char(s[17]) && is_digit_char(s[18])
}

/// The capture instant carried by a metadata datetime string: after
/// trimming whitespace the string must have the shape
/// "YYYY:MM:DD HH:MM:SS" and name a calendar-valid UTC instant; anything
/// else carries no instant.
pub open spec fn parse_datetime_chars(s: Seq<char>) -> Option<Timestamp> {
    let w = trimmed(s);
    if !datetime_shape(w) {
        None
    } else {
        let c = Timestamp {
            year: num4_at(w, 0) as u16,
            month: num2_at(w, 5) as u8,
            day: num2_at(w, 8) as u8,
            hour: num2_at(w, 11) as u8,
            minute: num2_at(w, 14) as u8,
            second: num2_at(w, 17) as u8,
        };
        if c.wf() {
            Some(c)
        } else {
            None
        }
    }
}

fn is_ws(c: char) -> (r: bool)
    ensures
        r == ws_char(c),
{
    c == ' ' || c == '\t' || c == '\n' || c == '\r'
}

fn read_digit(s: &str, i: usize) -> (r: Option<u32>)
    requires
        i < s@.len(),
    ensures
        match r {
            Some(v) => is_digit_char(s@[i as int]) && v == digit_val(s@[i as int]) && v <= 9,
            None => !is_digit_char(s@[i as int]),
        },
{
    let c = s.get_char(i) as u32;
    if 48 <= c && c <= 57 {
        Some(c - 48)
    } else {
        None
    }
}

fn read_num2(s: &str, i: usize) -> (r: Option<u32>)
    requires
        i + 2 <= s@.len() <= usize::MAX,
    ensures
        match r {
            Some(v) => is_digit_char(s@[i as int]) && is_digit_char(s@[i + 1]) && v == num2_at(
                s@,
                i as int,
            ) && v <= 99,
            None => !(is_digit_char(s@[i as int]) && is_digit_char(s@[i + 1])),
        },
{
    let d0 = match read_digit(s, i) {
        Some(v) => v,
        None => {
            return None;
        },
    };
    let d1 = match read_digit(s, i + 1) {
        Some(v) => v,
        None => {
            return None;
        },
    };
    Some(10 * d0 + d1)
}

fn read_num4(s: &str, i: usize) -> (r: Option<u32>)
    requires
        i + 4 <= s@.len() <= usize::MAX,
    ensures
        match r {
            Some(v) => is_digit_char(s@[i as int]) && is_digit_char(s@[i + 1]) && is_digit_char(
                s@[i + 2],
            ) && is_digit_char(s@[i + 3]) && v == num4_at(s@, i as int) && v <= 9999,
            None => !(is_digit_char(s@[i as int]) && is_digit_char(s@[i + 1]) && is_digit_char(
                s@[i + 2],
            ) && is_digit_char(s@[i + 3])),
        },
{
    let h = match read_num2(s, i) {
        Some(v) => v,
        None => {
            return None;
        },
    };
    let l = match read_num2(s, i + 2) {
        Some(v) => v,
        None => {
            return None;
        },
    };
    Some(100 * h + l)
}

/// Parses the textual datetime format found in embedded photo metadata.
pub fn parse_exif_datetime(s: &str) -> (r: Option<Timestamp>)
    ensures
        r == parse_datetime_chars(s@),
{
    let n = s.unicode_len();
    proof {
        assert(s@.skip(0) =~= s@);
    }
    let mut lo: usize = 0;
    while lo < n && is_ws(s.get_char(lo))
        invariant
            lo <= n,
            n == s@.len(),
            trim_front(s@) == trim_front(s@.skip(lo as int)),
        decreases n - lo,
    {
        proof {
            assert(s@.skip(lo as int).drop_first() =~= s@.skip(lo + 1));
        }
        lo = lo + 1;
    }
    proof {
        if lo == n {
            assert(s@.skip(lo as int) =~= Seq::<char>::empty());
        }
        assert(trim_front(s@) == s@.skip(lo as int));
        assert(s@.subrange(lo as int, n as int) =~= s@.skip(lo as int));
    }
    let mut hi: usize = n;
    while hi > lo && is_ws(s.get_char(hi - 1))
        invariant
            lo <= hi <= n,
            n == s@.len(),
            trim_front(s@) == s@.skip(lo as int),
            trim_back(s@.skip(lo as int)) == trim_back(s@.subrange(lo as int, hi as int)),
        decreases hi,
    {
        proof {
            assert(s@.subrange(lo as int, hi as int).drop_last() =~= s@.subrange(
                lo as int,
                hi - 1,
            ));
        }
        hi = hi - 1;
    }
    let ghost w = trimmed(s@);
    proof {
        if hi == lo {
            assert(s@.subrange(lo as int, hi as int) =~= Seq::<char>::empty());
        }
        assert(w == s@.subrange(lo as int, hi as int));
    }
    if hi - lo != 19 {
        return None;
    }
    let year = match read_num4(s, lo) {
        Some(v) => v,
        None => {
            return None;
        },
    };
    if s.get_char(lo + 4) != ':' {
        return None;
    }
    let month = match read_num2(s, lo + 5) {
        Some(v) => v,
        None => {
            return None;
        },
    };
    if s.get_char(lo + 7) != ':' {
        return None;
    }
    let day = match read_num2(s, lo + 8) {
        Some(v) => v,
        None => {
            return None;
        },
    };
    if s.get_char(lo + 10) != ' ' {
        return None;
    }
    let hour = match read_num2(s, lo + 11) {
        Some(v) => v,
        None => {
            return None;
        },
    };
    if s.get_char(lo + 13) != ':' {
        return None;
    }
    let minute = match read_num2(s, lo + 14) {
        Some(v) => v,
        None => {
            return None;
        },
    };
    if s.get_char(lo + 16) != ':' {
        return None;
    }
    let second = match read_num2(s, lo + 17) {
        Some(v) => v,
        None => {
            return None;
        },
    };
    proof {
        assert(forall|k: int| 0 <= k < 19 ==> w[k] == s@[lo + k]);
        assert(datetime_shape(w));
    }
    Timestamp::new(
        year as u16,
        month as u8,
        day as u8,
        hour as u8,
        minute as u8,
        second as u8,
    )
}

/// The capture instant of a record as resolved from embedded metadata:
/// photos take it from the metadata datetime string when one is present
/// and parses; videos carry no embedded capture metadata in this version.
pub open spec fn capture_from_exif(media_type: MediaType, raw: Option<Seq<char>>) -> Option<
    Timestamp,
> {
    match media_type {
        MediaType::Photo(_) => match raw {
            Some(s) => parse_datetime_chars(s),
            None => None,
        },
        MediaType::Video(_) => None,
    }
}

/// Resolves the embedded-metadata capture instant for a record, given the
/// raw datetime string that the metadata reader supplied (if any).
pub fn capture_timestamp_from_exif(media_type: &MediaType, raw: Option<&str>) -> (r: Option<
    Timestamp,
>)
    ensures
        r == capture_from_exif(
            *media_type,
            match raw {
                Some(s) => Some(s@),
                None => None::<Seq<char>>,
            },
        ),
{
    match media_type {
        MediaType::Photo(_) => match raw {
            Some(s) => parse_exif_datetime(s),
            None => None,
        },
        MediaType::Video(_) => None,
    }
}

} // verus!
