//! Log levels, the civil calendar of log time stamps, and the layout of one
//! log line:
//!
//! ```text
//! <YYYY>-<mm>-<dd> <HH>:<MM>:<SS>.<mss> [<LEVEL>] <file>:<line> <message>\n
//! ```
use vstd::prelude::*;
use vstd::string::StringSliceAdditionalSpecFns;

verus! {

/// The verbosity levels of the logger, from the quietest to the most verbose.
#[derive(Copy, Clone, Debug, PartialEq, Eq, Structural, PartialOrd, Ord, Hash)]
pub enum Level {
    /// No logging; its name is `NONE`.
    Off,
    /// System is unusable.
    Emerg,
    /// Action must be taken immediately.
    Alert,
    /// Critical conditions.
    Crit,
    /// Error conditions.
    Error,
    /// Warning conditions.
    Warn,
    /// Normal but significant condition.
    Notice,
    /// Information.
    Info,
    /// Debug messages.
    Debug,
}

/// Returned by `Level::from_str` when the text names no level.
#[derive(Copy, Clone, Debug, PartialEq, Eq, Structural)]
pub struct LevelParseError;

/// Number of levels.
pub const LEVEL_COUNT: usize = 9;

/// The level at position `i` of the declaration order.
pub open spec fn level_at(i: int) -> Level {
    if i == 0 {
        Level::Off
    } else if i == 1 {
        Level::Emerg
    } else if i == 2 {
        Level::Alert
    } else if i == 3 {
        Level::Crit
    } else if i == 4 {
        Level::Error
    } else if i == 5 {
        Level::Warn
    } else if i == 6 {
        Level::Notice
    } else if i == 7 {
        Level::Info
    } else {
        Level::Debug
    }
}

/// The upper-case name of a level, as ASCII bytes.
pub open spec fn level_name(l: Level) -> Seq<u8> {
    match l {
        Level::Off => seq![78u8, 79, 78, 69],
        Level::Emerg => seq![69u8, 77, 69, 82, 71],
        Level::Alert => seq![65u8, 76, 69, 82, 84],
        Level::Crit => seq![67u8, 82, 73, 84],
        Level::Error => seq![69u8, 82, 82, 79, 82],
        Level::Warn => seq![87u8, 65, 82, 78],
        Level::Notice => seq![78u8, 79, 84, 73, 67, 69],
        Level::Info => seq![73u8, 78, 70, 79],
        Level::Debug => seq![68u8, 69, 66, 85, 71],
    }
}

/// `a` is the upper-case ASCII letter `u` or its lower-case form.
pub open spec fn letter_matches(a: u8, u: u8) -> bool {
    a == u || a == u + 32
}

/// `s` spells `name` (upper-case letters) with any mix of cases.
pub open spec fn spells(s: Seq<u8>, name: Seq<u8>) -> bool {
    &&& s.len() == name.len()
    &&& forall|i: int| 0 <= i < s.len() ==> letter_matches(#[trigger] s[i], name[i])
}

/// The first level, from position `i` on, whose name `s` spells.
pub open spec fn level_named_from(s: Seq<u8>, i: int) -> Option<Level>
    decreases 9 - i,
{
    if i >= 9 || i < 0 {
        None
    } else if spells(s, level_name(level_at(i))) {
        Some(level_at(i))
    } else {
        level_named_from(s, i + 1)
    }
}

/// The level that `s` names, ignoring case, if any.
pub open spec fn level_named(s: Seq<u8>) -> Option<Level> {
    level_named_from(s, 0)
}

/// Whether `s` spells `name` with any mix of cases.
fn spells_name(s: &[u8], name: &Vec<u8>) -> (r: bool)
    requires
        forall|i: int| 0 <= i < name@.len() ==> name@[i] <= 0x5a,
    ensures
        r == spells(s@, name@),
{
    if s.len() != name.len() {
        return false;
    }
    let mut i: usize = 0;
    while i < s.len()
        invariant
            s@.len() == name@.len(),
            i <= s@.len(),
            forall|j: int| 0 <= j < name@.len() ==> name@[j] <= 0x5a,
            forall|j: int| 0 <= j < i ==> letter_matches(#[trigger] s@[j], name@[j]),
        decreases s@.len() - i,
    {
        let a = s[i];
        let u = name[i];
        if a != u && a != u + 32 {
            return false;
        }
        i += 1;
    }
    true
}

impl Level {
    /// Position of the level in the declaration order: `None` is 0, `Debug` is 8.
    pub open spec fn spec_index(self) -> int {
        match self {
            Level::Off => 0,
            Level::Emerg => 1,
            Level::Alert => 2,
            Level::Crit => 3,
            Level::Error => 4,
            Level::Warn => 5,
            Level::Notice => 6,
            Level::Info => 7,
            Level::Debug => 8,
        }
    }

    /// Position of the level in the declaration order.
    pub fn index(&self) -> (r: usize)
        ensures
            r == self.spec_index(),
            r < LEVEL_COUNT,
    {
        match self {
            Level::Off => 0,
            Level::Emerg => 1,
            Level::Alert => 2,
            Level::Crit => 3,
            Level::Error => 4,
            Level::Warn => 5,
            Level::Notice => 6,
            Level::Info => 7,
            Level::Debug => 8,
        }
    }

    /// The level at position `l` of the declaration order. Positions past
    /// `Debug` name no level.
    pub fn from(l: usize) -> (r: Level)
        requires
            l < LEVEL_COUNT,
        ensures
            r == level_at(l as int),
            r.spec_index() == l,
    {
        match l {
            0 => Level::Off,
            1 => Level::Emerg,
            2 => Level::Alert,
            3 => Level::Crit,
            4 => Level::Error,
            5 => Level::Warn,
            6 => Level::Notice,
            7 => Level::Info,
            _ => Level::Debug,
        }
    }

    /// The upper-case name of the level, as ASCII bytes.
    pub fn name(&self) -> (r: Vec<u8>)
        ensures
            r@ == level_name(*self),
    {
        let r = match self {
            Level::Off => vec![78u8, 79, 78, 69],
            Level::Emerg => vec![69u8, 77, 69, 82, 71],
            Level::Alert => vec![65u8, 76, 69, 82, 84],
            Level::Crit => vec![67u8, 82, 73, 84],
            Level::Error => vec![69u8, 82, 82, 79, 82],
            Level::Warn => vec![87u8, 65, 82, 78],
            Level::Notice => vec![78u8, 79, 84, 73, 67, 69],
            Level::Info => vec![73u8, 78, 70, 79],
            Level::Debug => vec![68u8, 69, 66, 85, 71],
        };
        assert(r@ =~= level_name(*self));
        r
    }
}

impl Level {
    /// Parses a level name, ignoring case: `"warn"`, `"WARN"` and `"Warn"`
    /// all give `Level::Warn`; text that spells no name is refused.
    pub fn parse(s: &str) -> (r: Result<Level, LevelParseError>)
        ensures
            r == match level_named(s.spec_bytes()) {
                Some(l) => Ok::<Level, LevelParseError>(l),
                None => Err(LevelParseError),
            },
    {
        let b = s.as_bytes();
        let mut i: usize = 0;
        while i < LEVEL_COUNT
            invariant
                i <= LEVEL_COUNT,
                b@ == s.spec_bytes(),
                level_named(b@) == level_named_from(b@, i as int),
            decreases LEVEL_COUNT - i,
        {
            let l = Level::from(i);
            let n = l.name();
            assert forall|j: int| 0 <= j < n@.len() implies n@[j] <= 0x5a by {
                assert(n@ == level_name(level_at(i as int)));
            }
            if spells_name(b, &n) {
                return Ok(l);
            }
            i += 1;
        }
        Err(LevelParseError)
    }
}

impl core::str::FromStr for Level {
    type Err = LevelParseError;

    fn from_str(s: &str) -> Result<Level, LevelParseError> {
        Level::parse(s)
    }
}

/// Seconds since the Unix epoch of 10000-01-01 00:00:00 UTC: the first
/// instant whose year takes more than four digits.
pub const MAX_STAMP_SECS: u64 = 253402300800;

/// Whether `y` is a leap year of the Gregorian calendar.
pub open spec fn is_leap(y: int) -> bool {
    y % 4 == 0 && (y % 100 != 0 || y % 400 == 0)
}

/// Number of days of month `m` (1 to 12) of year `y`.
pub open spec fn days_in_month(y: int, m: int) -> int {
    if m == 2 {
        if is_leap(y) {
            29
        } else {
            28
        }
    } else if m == 4 || m == 6 || m == 9 || m == 11 {
        30
    } else {
        31
    }
}

/// Number of leap years from year 1 up to, but not including, year `y`.
pub open spec fn leaps_before(y: int) -> int {
    (y - 1) / 4 - (y - 1) / 100 + (y - 1) / 400
}

/// Days from 1970-01-01 to January 1st of year `y`.
pub open spec fn days_before_year(y: int) -> int {
    365 * (y - 1970) + leaps_before(y) - leaps_before(1970)
}

/// Days from January 1st of year `y` to the first day of month `m`.
pub open spec fn days_before_month(y: int, m: int) -> int {
    let base: int = if m == 1 {
        0
    } else if m == 2 {
        31
    } else if m == 3 {
        59
    } else if m == 4 {
        90
    } else if m == 5 {
        120
    } else if m == 6 {
        151
    } else if m == 7 {
        181
    } else if m == 8 {
        212
    } else if m == 9 {
        243
    } else if m == 10 {
        273
    } else if m == 11 {
        304
    } else {
        334
    };
    if m > 2 && is_leap(y) {
        base + 1
    } else {
        base
    }
}

/// Days from 1970-01-01 to the date `y`-`m`-`d`.
pub open spec fn days_from_civil(y: int, m: int, d: int) -> int {
    days_before_year(y) + days_before_month(y, m) + d - 1
}

/// `t` = (year, month, day, hour, minute, second) is a valid UTC calendar
/// time, and it is the instant `secs` seconds after the Unix epoch.
pub open spec fn is_utc_time_of(secs: int, t: (u32, u32, u32, u32, u32, u32)) -> bool {
    let (y, m, d, h, mi, s) = t;
    &&& 1 <= m <= 12
    &&& 1 <= d <= days_in_month(y as int, m as int)
    &&& h < 24 && mi < 60 && s < 60
    &&& days_from_civil(y as int, m as int, d as int) == secs / 86400
    &&& h * 3600 + mi * 60 + s == secs % 86400
}

/// First day of the `k`-th month (0 = March) of a year that starts in March.
pub open spec fn march_month_start(k: int) -> int {
    if k <= 0 {
        0
    } else if k == 1 {
        31
    } else if k == 2 {
        61
    } else if k == 3 {
        92
    } else if k == 4 {
        122
    } else if k == 5 {
        153
    } else if k == 6 {
        184
    } else if k == 7 {
        214
    } else if k == 8 {
        245
    } else if k == 9 {
        275
    } else if k == 10 {
        306
    } else if k == 11 {
        337
    } else {
        366
    }
}

proof fn lemma_div_step(y: int, d: int)
    requires
        d > 0,
    ensures
        y / d - (y - 1) / d == if y % d == 0 {
            1int
        } else {
            0int
        },
{
    let q = (y - 1) / d;
    let r = (y - 1) % d;
    vstd::arithmetic::div_mod::lemma_fundamental_div_mod(y - 1, d);
    assert(0 <= r < d);
    if r + 1 < d {
        vstd::arithmetic::div_mod::lemma_fundamental_div_mod_converse(y, d, q, r + 1);
    } else {
        assert((q + 1) * d == q * d + d) by (nonlinear_arith);
        assert(y == d * q + r + 1);
        assert(q * d == d * q) by (nonlinear_arith);
        vstd::arithmetic::div_mod::lemma_fundamental_div_mod_converse(y, d, q + 1, 0);
    }
}

/// A year adds one to the leap count exactly when it is a leap year.
proof fn lemma_leaps_step(y: int)
    ensures
        leaps_before(y + 1) == leaps_before(y) + if is_leap(y) {
            1int
        } else {
            0int
        },
{
    lemma_div_step(y, 4);
    lemma_div_step(y, 100);
    lemma_div_step(y, 400);
}

/// The year `1600 + 400 qc + 100 c + 4 q + ry` in terms of its cycles.
proof fn lemma_cycle_year(qc: int, c: int, q: int, ry: int)
    requires
        qc >= 0,
        0 <= c <= 3,
        0 <= q <= 24,
        0 <= ry <= 3,
    ensures
        ({
            let y = 1600 + 400 * qc + 100 * c + 4 * q + ry;
            &&& days_before_year(y + 1) == days_before_year(y) + 365 + if is_leap(y) {
                1int
            } else {
                0int
            }
            &&& days_before_year(y + 1) - 306 + 135080 == 146097 * qc + 36524 * c + 1461 * q
                + 365 * ry
        }),
{
    let y = 1600 + 400 * qc + 100 * c + 4 * q + ry;
    vstd::arithmetic::div_mod::lemma_fundamental_div_mod_converse(
        y,
        4,
        400 + 100 * qc + 25 * c + q,
        ry,
    );
    vstd::arithmetic::div_mod::lemma_fundamental_div_mod_converse(
        y,
        100,
        16 + 4 * qc + c,
        4 * q + ry,
    );
    vstd::arithmetic::div_mod::lemma_fundamental_div_mod_converse(
        y,
        400,
        4 + qc,
        100 * c + 4 * q + ry,
    );
    assert(leaps_before(y + 1) == 388 + 97 * qc + 24 * c + q);
    assert(leaps_before(1970) == 477);
    lemma_leaps_step(y);
}

/// Each year has at least 365 days.
proof fn lemma_years_apart(y1: int, y2: int)
    requires
        y1 <= y2,
    ensures
        days_before_year(y2) - days_before_year(y1) >= 365 * (y2 - y1),
    decreases y2 - y1,
{
    if y1 < y2 {
        lemma_years_apart(y1, y2 - 1);
        lemma_leaps_step(y2 - 1);
    }
}

/// A valid date comes after every date of an earlier year or month.
proof fn lemma_date_order(y1: int, m1: int, d1: int, y2: int, m2: int, d2: int)
    requires
        1 <= m1 <= 12,
        1 <= d1 <= days_in_month(y1, m1),
        1 <= m2 <= 12,
        1 <= d2 <= days_in_month(y2, m2),
        y1 < y2 || (y1 == y2 && m1 < m2),
    ensures
        days_from_civil(y1, m1, d1) < days_from_civil(y2, m2, d2),
{
    if y1 < y2 {
        lemma_years_apart(y1 + 1, y2);
        lemma_leaps_step(y1);
    }
}

/// The calendar time of an instant is unique: `localtime`'s result is the
/// only one its contract admits.
pub proof fn lemma_utc_time_unique(
    secs: int,
    t1: (u32, u32, u32, u32, u32, u32),
    t2: (u32, u32, u32, u32, u32, u32),
)
    requires
        is_utc_time_of(secs, t1),
        is_utc_time_of(secs, t2),
    ensures
        t1 == t2,
{
    let (y1, m1, d1, h1, mi1, s1) = t1;
    let (y2, m2, d2, h2, mi2, s2) = t2;
    if y1 < y2 || (y1 == y2 && m1 < m2) {
        lemma_date_order(y1 as int, m1 as int, d1 as int, y2 as int, m2 as int, d2 as int);
    }
    if y2 < y1 || (y1 == y2 && m2 < m1) {
        lemma_date_order(y2 as int, m2 as int, d2 as int, y1 as int, m1 as int, d1 as int);
    }
    let x = secs % 86400;
    vstd::arithmetic::div_mod::lemma_fundamental_div_mod_converse(
        x,
        3600,
        h1 as int,
        mi1 * 60 + s1,
    );
    vstd::arithmetic::div_mod::lemma_fundamental_div_mod_converse(
        x,
        3600,
        h2 as int,
        mi2 * 60 + s2,
    );
    vstd::arithmetic::div_mod::lemma_fundamental_div_mod_converse(
        mi1 * 60 + s1,
        60,
        mi1 as int,
        s1 as int,
    );
    vstd::arithmetic::div_mod::lemma_fundamental_div_mod_converse(
        mi2 * 60 + s2,
        60,
        mi2 as int,
        s2 as int,
    );
}

/// Splits `secs` seconds after the Unix epoch into the UTC calendar time
/// (year, month, day, hour, minute, second).
pub fn localtime(secs: u64) -> (r: (u32, u32, u32, u32, u32, u32))
    requires
        secs < MAX_STAMP_SECS,
    ensures
        is_utc_time_of(secs as int, r),
        r.0 <= 9999,
{
    // Days are counted from 1600-03-01, the start of a 400-year cycle whose
    // leap day falls at the very end.
    let days: u64 = secs / 86400 + 135080;
    let secs_of_day: u64 = secs % 86400;

    let qc_cycles: u64 = days / 146097;
    let rem0: u64 = days % 146097;

    let mut c_cycles: u64 = rem0 / 36524;
    if c_cycles == 4 {
        c_cycles = 3;
    }
    let rem1: u64 = rem0 - c_cycles * 36524;

    let mut q_cycles: u64 = rem1 / 1461;
    if q_cycles == 25 {
        q_cycles = 24;
    }
    let rem2: u64 = rem1 - q_cycles * 1461;

    let mut remyears: u64 = rem2 / 365;
    if remyears == 4 {
        remyears = 3;
    }
    let remdays: u64 = rem2 - remyears * 365;

    proof {
        vstd::arithmetic::div_mod::lemma_fundamental_div_mod(days as int, 146097);
        vstd::arithmetic::div_mod::lemma_fundamental_div_mod(rem0 as int, 36524);
        vstd::arithmetic::div_mod::lemma_fundamental_div_mod(rem1 as int, 1461);
        vstd::arithmetic::div_mod::lemma_fundamental_div_mod(rem2 as int, 365);
        assert(days <= 3067976);
        assert(qc_cycles <= 20);
        assert(remdays <= 365);
        assert(remdays == 365 ==> remyears == 3 && rem2 == 1460);
        assert(rem2 == 1460 && q_cycles == 24 ==> c_cycles == 3);
    }

    let mut year: u64 = 1600 + remyears + 4 * q_cycles + 100 * c_cycles + 400 * qc_cycles;

    let months: [u64; 12] = [31, 30, 31, 30, 31, 31, 30, 31, 30, 31, 31, 29];
    let mut k: usize = 0;
    let mut rem: u64 = remdays;
    while k < 11 && rem >= months[k]
        invariant
            k <= 11,
            remdays <= 365,
            rem + march_month_start(k as int) == remdays,
            months@ == seq![31u64, 30, 31, 30, 31, 31, 30, 31, 30, 31, 31, 29],
        decreases 11 - k,
    {
        rem = rem - months[k];
        k += 1;
    }

    let mday: u64 = rem + 1;
    let mon: u64 = if k >= 10 {
        year = year + 1;
        (k - 9) as u64
    } else {
        (k + 3) as u64
    };

    let hours: u64 = secs_of_day / 3600;
    let minutes: u64 = secs_of_day % 3600 / 60;
    let seconds: u64 = secs_of_day % 3600 % 60;

    proof {
        let y = 1600 + remyears + 4 * q_cycles + 100 * c_cycles + 400 * qc_cycles;
        lemma_cycle_year(qc_cycles as int, c_cycles as int, q_cycles as int, remyears as int);
        vstd::arithmetic::div_mod::lemma_fundamental_div_mod(secs_of_day as int, 3600);
        vstd::arithmetic::div_mod::lemma_fundamental_div_mod((secs_of_day % 3600) as int, 60);
        if remdays == 365 {
            if q_cycles < 24 {
                vstd::arithmetic::div_mod::lemma_fundamental_div_mod_converse(
                    y + 1,
                    4,
                    401 + 25 * c_cycles + 100 * qc_cycles + q_cycles,
                    0,
                );
                vstd::arithmetic::div_mod::lemma_fundamental_div_mod_converse(
                    y + 1,
                    100,
                    16 + c_cycles + 4 * qc_cycles,
                    4 * q_cycles + 4,
                );
            } else {
                vstd::arithmetic::div_mod::lemma_fundamental_div_mod_converse(
                    y + 1,
                    400,
                    5 + qc_cycles,
                    0,
                );
                vstd::arithmetic::div_mod::lemma_fundamental_div_mod_converse(
                    y + 1,
                    4,
                    500 + 100 * qc_cycles,
                    0,
                );
            }
            assert(is_leap(y + 1));
        }
        if k >= 10 {
            assert(remdays >= 306);
            assert(y <= 9998);
        }
    }

    (year as u32, mon as u32, mday as u32, hours as u32, minutes as u32, seconds as u32)
}

/// The ASCII digit of `n` (0 to 9).
pub open spec fn digit(n: int) -> u8 {
    (48 + n) as u8
}

/// The decimal digits of `n`, most significant first, with no leading zero.
pub open spec fn decimal(n: nat) -> Seq<u8>
    decreases n,
{
    if n < 10 {
        seq![digit(n as int)]
    } else {
        decimal(n / 10).push(digit((n % 10) as int))
    }
}

/// `n` (under 100) as two digits, zero-padded.
pub open spec fn two_digits(n: int) -> Seq<u8> {
    seq![digit(n / 10), digit(n % 10)]
}

/// The date part of a time stamp, `YYYY-mm-dd HH:MM:SS.`.
pub open spec fn date_stamp(t: (u32, u32, u32, u32, u32, u32)) -> Seq<u8> {
    let (y, m, d, h, mi, s) = t;
    let y = y as int;
    seq![digit(y / 1000), digit(y / 100 % 10), digit(y / 10 % 10), digit(y % 10), 45u8]
        + two_digits(m as int) + seq![45u8] + two_digits(d as int) + seq![32u8]
        + two_digits(h as int) + seq![58u8] + two_digits(mi as int) + seq![58u8]
        + two_digits(s as int) + seq![46u8]
}

/// What follows the date part in a log line: the milliseconds `msec`, the
/// bracketed level name, the source location, the message and a newline.
pub open spec fn line_tail(
    msec: int,
    level: Level,
    file: Seq<u8>,
    line: nat,
    message: Seq<u8>,
) -> Seq<u8> {
    seq![digit(msec / 100), digit(msec / 10 % 10), digit(msec % 10), 32u8, 91u8] + level_name(
        level,
    ) + seq![93u8, 32u8] + file + seq![58u8] + decimal(line) + seq![32u8] + message + seq![10u8]
}

/// One log line: the date part of `t`, then the rest of the line.
pub open spec fn log_line(
    t: (u32, u32, u32, u32, u32, u32),
    msec: int,
    level: Level,
    file: Seq<u8>,
    line: nat,
    message: Seq<u8>,
) -> Seq<u8> {
    date_stamp(t) + line_tail(msec, level, file, line, message)
}

/// Appends the bytes of `b` to `buf`.
fn push_bytes(buf: &mut Vec<u8>, b: &[u8])
    ensures
        final(buf)@ == old(buf)@ + b@,
{
    let mut i: usize = 0;
    while i < b.len()
        invariant
            i <= b@.len(),
            buf@ == old(buf)@ + b@.subrange(0, i as int),
        decreases b@.len() - i,
    {
        buf.push(b[i]);
        i += 1;
        assert(b@.subrange(0, i as int) == b@.subrange(0, i - 1).push(b@[i - 1]));
    }
    assert(b@.subrange(0, b@.len() as int) == b@);
}

/// Appends the decimal digits of `n` to `buf`.
fn push_decimal(buf: &mut Vec<u8>, n: u32)
    ensures
        final(buf)@ == old(buf)@ + decimal(n as nat),
    decreases n,
{
    if n >= 10 {
        push_decimal(buf, n / 10);
    }
    buf.push(48 + (n % 10) as u8);
    assert(final(buf)@ =~= old(buf)@ + decimal(n as nat));
}

/// Appends `n` (under 100) as two zero-padded digits to `buf`.
fn push_two_digits(buf: &mut Vec<u8>, n: u32)
    requires
        n < 100,
    ensures
        final(buf)@ == old(buf)@ + two_digits(n as int),
{
    buf.push(48 + (n / 10) as u8);
    buf.push(48 + (n % 10) as u8);
    assert(final(buf)@ =~= old(buf)@ + two_digits(n as int));
}

/// The date part of the time stamp of `t`.
fn date_stamp_bytes(t: (u32, u32, u32, u32, u32, u32)) -> (r: Vec<u8>)
    requires
        t.0 <= 9999,
        t.1 < 100 && t.2 < 100 && t.3 < 100 && t.4 < 100 && t.5 < 100,
    ensures
        r@ == date_stamp(t),
{
    let (y, m, d, h, mi, s) = t;
    let mut r: Vec<u8> = Vec::new();
    r.push(48 + (y / 1000) as u8);
    r.push(48 + (y / 100 % 10) as u8);
    r.push(48 + (y / 10 % 10) as u8);
    r.push(48 + (y % 10) as u8);
    r.push(45);
    push_two_digits(&mut r, m);
    r.push(45);
    push_two_digits(&mut r, d);
    r.push(32);
    push_two_digits(&mut r, h);
    r.push(58);
    push_two_digits(&mut r, mi);
    r.push(58);
    push_two_digits(&mut r, s);
    r.push(46);
    assert(r@ =~= date_stamp(t));
    r
}

/// `stamp` followed by the rest of the line.
fn format_line(
    stamp: &Vec<u8>,
    msec: u32,
    level: Level,
    file: &str,
    line: u32,
    message: &str,
) -> (r: Vec<u8>)
    requires
        msec < 1000,
    ensures
        r@ == stamp@ + line_tail(
            msec as int,
            level,
            file.spec_bytes(),
            line as nat,
            message.spec_bytes(),
        ),
{
    let mut out: Vec<u8> = Vec::new();
    push_bytes(&mut out, stamp.as_slice());
    out.push(48 + (msec / 100) as u8);
    out.push(48 + (msec / 10 % 10) as u8);
    out.push(48 + (msec % 10) as u8);
    out.push(32);
    out.push(91);
    let ghost head = out@;
    let name = level.name();
    push_bytes(&mut out, name.as_slice());
    out.push(93);
    out.push(32);
    push_bytes(&mut out, file.as_bytes());
    out.push(58);
    let ghost mid = out@;
    push_decimal(&mut out, line);
    out.push(32);
    push_bytes(&mut out, message.as_bytes());
    out.push(10);
    assert(head =~= stamp@ + seq![
        digit(msec as int / 100),
        digit(msec as int / 10 % 10),
        digit(msec as int % 10),
        32u8,
        91u8,
    ]);
    assert(mid =~= head + level_name(level) + seq![93u8, 32u8] + file.spec_bytes() + seq![58u8]);
    assert(out@ =~= mid + decimal(line as nat) + seq![32u8] + message.spec_bytes() + seq![10u8]);
    assert(out@ =~= stamp@ + line_tail(
        msec as int,
        level,
        file.spec_bytes(),
        line as nat,
        message.spec_bytes(),
    ));
    out
}

/// A logger that formats lines for levels up to its filter. The date part
/// of the last time stamp is kept, so lines within one second share it.
pub struct Logger {
    filter: Level,
    last_ts: u64,
    stamp: Vec<u8>,
}

impl Logger {
    /// The most verbose level that is logged.
    pub closed spec fn spec_filter(&self) -> Level {
        self.filter
    }

    /// The kept date part is that of `last_ts`.
    pub closed spec fn wf(&self) -> bool {
        &&& self.last_ts < MAX_STAMP_SECS
        &&& exists|t: (u32, u32, u32, u32, u32, u32)|
            is_utc_time_of(self.last_ts as int, t) && self.stamp@ == date_stamp(t)
    }

    /// A logger that formats lines of `filter` and of the levels above it.
    pub fn new(filter: Level) -> (r: Logger)
        ensures
            r.wf(),
            r.spec_filter() == filter,
    {
        let t = localtime(0);
        let stamp = date_stamp_bytes(t);
        Logger { filter, last_ts: 0, stamp }
    }

    /// The most verbose level that is logged.
    pub fn level(&self) -> (r: Level)
        ensures
            r == self.spec_filter(),
    {
        self.filter
    }

    /// Sets the most verbose level that is logged.
    pub fn set_level(&mut self, level: Level)
        requires
            old(self).wf(),
        ensures
            final(self).wf(),
            final(self).spec_filter() == level,
    {
        self.filter = level;
    }

    /// The line for a message of `level` from `file`:`line`, stamped with
    /// `secs` seconds and `msec` milliseconds after the Unix epoch; `None`
    /// when `level` is more verbose than the filter.
    pub fn log(
        &mut self,
        level: Level,
        file: &str,
        line: u32,
        secs: u64,
        msec: u32,
        message: &str,
    ) -> (r: Option<Vec<u8>>)
        requires
            old(self).wf(),
            secs < MAX_STAMP_SECS,
            msec < 1000,
        ensures
            final(self).wf(),
            final(self).spec_filter() == old(self).spec_filter(),
            level.spec_index() > old(self).spec_filter().spec_index() ==> r is None,
            level.spec_index() <= old(self).spec_filter().spec_index() ==> {
                &&& r is Some
                &&& exists|t: (u32, u32, u32, u32, u32, u32)|
                    is_utc_time_of(secs as int, t) && r->Some_0@ == log_line(
                        t,
                        msec as int,
                        level,
                        file.spec_bytes(),
                        line as nat,
                        message.spec_bytes(),
                    )
            },
    {
        if level.index() > self.filter.index() {
            return None;
        }
        if self.last_ts != secs {
            let t = localtime(secs);
            self.stamp = date_stamp_bytes(t);
            self.last_ts = secs;
        }
        let ghost t = choose|t: (u32, u32, u32, u32, u32, u32)|
            is_utc_time_of(self.last_ts as int, t) && self.stamp@ == date_stamp(t);
        let out = format_line(&self.stamp, msec, level, file, line, message);
        Some(out)
    }
}

} // verus!
