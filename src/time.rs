//! UTC timestamps with second precision, written in one ISO-8601 form only:
//! `YYYY-MM-DDTHH:MM:SSZ` (no fractional seconds, no numeric offset).
use vstd::prelude::*;

verus! {

/// Seconds in one day.
pub const SECS_PER_DAY: u64 = 86400;

/// The last second that a four-digit year can write: 9999-12-31T23:59:59Z.
pub const MAX_UNIX_SECS: u64 = 253402300799;

pub open spec fn is_leap(y: int) -> bool {
    (y % 4 == 0 && y % 100 != 0) || y % 400 == 0
}

pub open spec fn year_len(y: int) -> int {
    if is_leap(y) {
        366
    } else {
        365
    }
}

pub open spec fn days_in_month(y: int, m: int) -> int {
    if m == 2 {
        if is_leap(y) {
            29
        } else {
            28
        }
    } else if m == 4 || m == 6 || m == 9 || m == 11 {
        30
    } else {
        31
    }
}

/// Days from 1970-01-01 to the first day of year `y`.
pub open spec fn days_before_year(y: int) -> int
    decreases y - 1970,
{
    if y <= 1970 {
        0
    } else {
        days_before_year(y - 1) + year_len(y - 1)
    }
}

/// Days from the first of January to the first day of month `m` of year `y`.
pub open spec fn days_before_month(y: int, m: int) -> int
    decreases m,
{
    if m <= 1 {
        0
    } else {
        days_before_month(y, m - 1) + days_in_month(y, m - 1)
    }
}

/// The ASCII digit of `n`'s last decimal place.
pub open spec fn digit(n: int) -> u8 {
    (48 + n % 10) as u8
}

/// A point in time, as the fields of the UTC calendar.
#[derive(Clone, Copy, Debug, PartialEq, Eq, Structural)]
pub struct UtcTime {
    pub year: u16,
    pub month: u8,
    pub day: u8,
    pub hour: u8,
    pub minute: u8,
    pub second: u8,
}

impl UtcTime {
    /// The fields name a real instant between 1970 and the end of year 9999.
    pub open spec fn wf(self) -> bool {
        &&& 1970 <= self.year <= 9999
        &&& 1 <= self.month <= 12
        &&& 1 <= self.day <= days_in_month(self.year as int, self.month as int)
        &&& self.hour < 24
        &&& self.minute < 60
        &&& self.second < 60
    }

    /// Days since 1970-01-01.
    pub open spec fn day_number(self) -> int {
        days_before_year(self.year as int) + days_before_month(self.year as int, self.month as int)
            + self.day - 1
    }

    pub open spec fn second_of_day(self) -> int {
        self.hour * 3600 + self.minute * 60 + self.second
    }

    /// Seconds since 1970-01-01T00:00:00Z.
    pub open spec fn spec_unix_secs(self) -> int {
        self.day_number() * 86400 + self.second_of_day()
    }

    /// `self` lies strictly before `other`.
    pub open spec fn spec_is_before(self, other: UtcTime) -> bool {
        self.spec_unix_secs() < other.spec_unix_secs()
    }

    /// The text `YYYY-MM-DDTHH:MM:SSZ`, as ASCII bytes.
    pub open spec fn iso_bytes(self) -> Seq<u8> {
        let y = self.year as int;
        let mo = self.month as int;
        let d = self.day as int;
        let h = self.hour as int;
        let mi = self.minute as int;
        let s = self.second as int;
        seq![
            digit(y / 1000), digit(y / 100), digit(y / 10), digit(y), 45u8,
            digit(mo / 10), digit(mo), 45u8,
            digit(d / 10), digit(d), 84u8,
            digit(h / 10), digit(h), 58u8,
            digit(mi / 10), digit(mi), 58u8,
            digit(s / 10), digit(s), 90u8,
        ]
    }
}

proof fn lemma_days_before_year_closed(y: int)
    requires
        1970 <= y,
    ensures
        days_before_year(y) == 365 * (y - 1970) + (y - 1) / 4 - (y - 1) / 100 + (y - 1) / 400 - 477,
    decreases y - 1970,
{
    if y > 1970 {
        lemma_days_before_year_closed(y - 1);
    }
}

proof fn lemma_days_before_month_bound(y: int, m: int)
    requires
        1 <= m <= 13,
    ensures
        0 <= days_before_month(y, m) <= 31 * (m - 1),
        m == 13 ==> days_before_month(y, m) == year_len(y),
    decreases m,
{
    if m > 1 {
        lemma_days_before_month_bound(y, m - 1);
    }
    if m == 13 {
        reveal_with_fuel(days_before_month, 13);
    }
}

proof fn lemma_days_before_year_mono(a: int, b: int)
    requires
        1970 <= a <= b,
    ensures
        days_before_year(a) + 365 * (b - a) <= days_before_year(b),
    decreases b - a,
{
    if a < b {
        lemma_days_before_year_mono(a, b - 1);
    }
}

proof fn lemma_two_digits(n: int)
    requires
        0 <= n < 100,
    ensures
        (n / 10) % 10 * 10 + n % 10 == n,
{
}

proof fn lemma_four_digits(n: int)
    requires
        0 <= n < 10000,
    ensures
        (n / 1000) % 10 * 1000 + (n / 100) % 10 * 100 + (n / 10) % 10 * 10 + n % 10 == n,
{
    let q1 = n / 10;
    let q2 = q1 / 10;
    let q3 = q2 / 10;
    assert(n == q1 * 10 + n % 10);
    assert(q1 == q2 * 10 + q1 % 10);
    assert(q2 == q3 * 10 + q2 % 10);
    assert(n == q2 * 100 + (q1 % 10) * 10 + n % 10);
    assert(n / 100 == q2);
    assert(n == q3 * 1000 + (q2 % 10) * 100 + (q1 % 10) * 10 + n % 10);
    assert(n / 1000 == q3);
    assert(q3 % 10 == q3);
}

proof fn lemma_digit(n: int)
    requires
        0 <= n,
    ensures
        48 <= digit(n) <= 57,
        digit(n) - 48 == n % 10,
{
}

proof fn lemma_compose_two(a: int, b: int)
    requires
        0 <= a,
        0 <= b <= 9,
    ensures
        (a * 10 + b) / 10 == a,
        (a * 10 + b) % 10 == b,
{
}

proof fn lemma_compose_four(a: int, b: int, c: int, d: int)
    requires
        0 <= a <= 9,
        0 <= b <= 9,
        0 <= c <= 9,
        0 <= d <= 9,
    ensures
        ((a * 1000 + b * 100 + c * 10 + d) / 1000) % 10 == a,
        ((a * 1000 + b * 100 + c * 10 + d) / 100) % 10 == b,
        ((a * 1000 + b * 100 + c * 10 + d) / 10) % 10 == c,
        (a * 1000 + b * 100 + c * 10 + d) % 10 == d,
{
    let n = a * 1000 + b * 100 + c * 10 + d;
    assert(n / 10 == a * 100 + b * 10 + c);
    assert(n / 100 == a * 10 + b);
    assert(n / 1000 == a);
    lemma_compose_two(a * 10 + b, c);
    lemma_compose_two(a, b);
}

proof fn lemma_compose_two_digits(a: int, b: int)
    requires
        0 <= a <= 9,
        0 <= b <= 9,
    ensures
        ((a * 10 + b) / 10) % 10 == a,
        (a * 10 + b) % 10 == b,
{
    lemma_compose_two(a, b);
}

/// Two well-formed times with the same text are the same time.
pub proof fn lemma_iso_injective(t1: UtcTime, t2: UtcTime)
    requires
        t1.wf(),
        t2.wf(),
        t1.iso_bytes() == t2.iso_bytes(),
    ensures
        t1 == t2,
{
    lemma_iso_injective_raw(t1, t2);
}

proof fn lemma_iso_injective_raw(t1: UtcTime, t2: UtcTime)
    requires
        t1.year < 10000 && t1.month < 100 && t1.day < 100,
        t1.hour < 100 && t1.minute < 100 && t1.second < 100,
        t2.year < 10000 && t2.month < 100 && t2.day < 100,
        t2.hour < 100 && t2.minute < 100 && t2.second < 100,
        t1.iso_bytes() == t2.iso_bytes(),
    ensures
        t1 == t2,
{
    let b1 = t1.iso_bytes();
    let b2 = t2.iso_bytes();
    assert(b1[0] == b2[0] && b1[1] == b2[1] && b1[2] == b2[2] && b1[3] == b2[3]);
    assert(b1[5] == b2[5] && b1[6] == b2[6] && b1[8] == b2[8] && b1[9] == b2[9]);
    assert(b1[11] == b2[11] && b1[12] == b2[12] && b1[14] == b2[14] && b1[15] == b2[15]);
    assert(b1[17] == b2[17] && b1[18] == b2[18]);
    lemma_four_digits(t1.year as int);
    lemma_four_digits(t2.year as int);
    lemma_two_digits(t1.month as int);
    lemma_two_digits(t2.month as int);
    lemma_two_digits(t1.day as int);
    lemma_two_digits(t2.day as int);
    lemma_two_digits(t1.hour as int);
    lemma_two_digits(t2.hour as int);
    lemma_two_digits(t1.minute as int);
    lemma_two_digits(t2.minute as int);
    lemma_two_digits(t1.second as int);
    lemma_two_digits(t2.second as int);
}

/// Whether year `y` is a leap year.
fn leap_year(y: u16) -> (r: bool)
    ensures
        r == is_leap(y as int),
{
    (y % 4 == 0 && y % 100 != 0) || y % 400 == 0
}

/// Number of days in month `m` of year `y`.
pub fn month_days(y: u16, m: u8) -> (r: u8)
    ensures
        r as int == days_in_month(y as int, m as int),
{
    if m == 2 {
        if leap_year(y) {
            29
        } else {
            28
        }
    } else if m == 4 || m == 6 || m == 9 || m == 11 {
        30
    } else {
        31
    }
}

fn year_days(y: u16) -> (r: u16)
    ensures
        r as int == year_len(y as int),
{
    if leap_year(y) {
        366
    } else {
        365
    }
}

/// The value of the ASCII digit `b`, if it is one.
fn digit_value(b: u8) -> (r: Option<u8>)
    ensures
        match r {
            Some(v) => 48 <= b <= 57 && v == b - 48,
            None => !(48 <= b <= 57),
        },
{
    if 48 <= b && b <= 57 {
        Some(b - 48)
    } else {
        None
    }
}

impl UtcTime {
    /// Seconds since the Unix epoch.
    pub fn unix_secs(&self) -> (r: u64)
        requires
            self.wf(),
        ensures
            r as int == self.spec_unix_secs(),
            r <= MAX_UNIX_SECS,
    {
        let y = self.year as u64;
        proof {
            lemma_days_before_year_closed(y as int);
            lemma_days_before_year_closed(10000);
            lemma_days_before_year_mono(y as int, 10000);
            lemma_days_before_month_bound(y as int, self.month as int);
            lemma_days_before_month_bound(y as int, 13);
            lemma_days_before_month_bound(y as int, self.month as int + 1);
            lemma_days_before_year_closed(y as int + 1);
            lemma_days_before_year_mono(y as int + 1, 10000);
        }
        let year_days_before: u64 = 365 * (y - 1970) + (y - 1) / 4 - (y - 1) / 100 + (y - 1) / 400 - 477;
        let mut month_days_before: u64 = 0;
        let mut m: u8 = 1;
        while m < self.month
            invariant
                1 <= m <= self.month <= 12,
                y == self.year as u64,
                month_days_before as int == days_before_month(y as int, m as int),
                month_days_before <= 31 * (m - 1),
            decreases self.month - m,
        {
            assert(days_before_month(y as int, m as int + 1) == days_before_month(y as int, m as int)
                + days_in_month(y as int, m as int));
            month_days_before = month_days_before + month_days(self.year, m) as u64;
            m = m + 1;
        }
        let days: u64 = year_days_before + month_days_before + self.day as u64 - 1;
        assert(days < 2932897) by {
            assert(days_before_month(y as int, self.month as int + 1) == days_before_month(
                y as int,
                self.month as int,
            ) + days_in_month(y as int, self.month as int));
        }
        days * 86400 + self.hour as u64 * 3600 + self.minute as u64 * 60 + self.second as u64
    }

    /// Whether `self` lies strictly before `other`.
    pub fn is_before(&self, other: &UtcTime) -> (r: bool)
        requires
            self.wf(),
            other.wf(),
        ensures
            r == self.spec_is_before(*other),
    {
        self.unix_secs() < other.unix_secs()
    }
}


proof fn lemma_year_total(y: int)
    ensures
        days_before_month(y, 13) == year_len(y),
{
    reveal_with_fuel(days_before_month, 13);
}

impl UtcTime {
    /// The time `secs` seconds after the Unix epoch, if a four-digit year can write it.
    pub fn from_unix_secs(secs: u64) -> (r: Option<UtcTime>)
        ensures
            r is Some <==> secs <= MAX_UNIX_SECS,
            r matches Some(t) ==> t.wf() && t.spec_unix_secs() == secs,
    {
        if secs > MAX_UNIX_SECS {
            return None;
        }
        let days: u64 = secs / SECS_PER_DAY;
        let sod: u64 = secs % SECS_PER_DAY;
        proof {
            lemma_days_before_year_closed(10000);
        }
        let mut y: u16 = 1970;
        let mut rem: u64 = days;
        while rem >= year_days(y) as u64
            invariant
                1970 <= y <= 9999,
                days_before_year(y as int) + rem == days,
                days < days_before_year(10000),
            decreases rem,
        {
            proof {
                if y == 9999 {
                    assert(days_before_year(10000) == days_before_year(9999) + year_len(9999));
                }
            }
            rem = rem - year_days(y) as u64;
            y = y + 1;
        }
        let ghost year_rem = rem;
        proof {
            lemma_year_total(y as int);
        }
        let mut m: u8 = 1;
        while rem >= month_days(y, m) as u64
            invariant
                1 <= m <= 12,
                days_before_month(y as int, m as int) + rem == year_rem,
                year_rem < year_len(y as int),
                days_before_month(y as int, 13) == year_len(y as int),
            decreases rem,
        {
            proof {
                if m == 12 {
                    assert(days_before_month(y as int, 13) == days_before_month(y as int, 12)
                        + days_in_month(y as int, 12));
                }
            }
            rem = rem - month_days(y, m) as u64;
            m = m + 1;
        }
        let t = UtcTime {
            year: y,
            month: m,
            day: (rem + 1) as u8,
            hour: (sod / 3600) as u8,
            minute: (sod % 3600 / 60) as u8,
            second: (sod % 60) as u8,
        };
        assert(t.second_of_day() == sod);
        Some(t)
    }

    /// The time `secs` seconds after `self`, if a four-digit year can write it.
    pub fn add_seconds(&self, secs: u64) -> (r: Option<UtcTime>)
        requires
            self.wf(),
        ensures
            r is Some <==> self.spec_unix_secs() + secs <= MAX_UNIX_SECS,
            r matches Some(t) ==> t.wf() && t.spec_unix_secs() == self.spec_unix_secs() + secs,
    {
        let base = self.unix_secs();
        if secs > MAX_UNIX_SECS - base {
            None
        } else {
            UtcTime::from_unix_secs(base + secs)
        }
    }

    /// The text `YYYY-MM-DDTHH:MM:SSZ` of `self`, as ASCII bytes.
    pub fn format_iso(&self) -> (r: Vec<u8>)
        ensures
            r@ == self.iso_bytes(),
    {
        let y = self.year;
        let mut r: Vec<u8> = Vec::new();
        r.push((48 + y / 1000 % 10) as u8);
        r.push((48 + y / 100 % 10) as u8);
        r.push((48 + y / 10 % 10) as u8);
        r.push((48 + y % 10) as u8);
        r.push(45);
        r.push(48 + self.month / 10 % 10);
        r.push(48 + self.month % 10);
        r.push(45);
        r.push(48 + self.day / 10 % 10);
        r.push(48 + self.day % 10);
        r.push(84);
        r.push(48 + self.hour / 10 % 10);
        r.push(48 + self.hour % 10);
        r.push(58);
        r.push(48 + self.minute / 10 % 10);
        r.push(48 + self.minute % 10);
        r.push(58);
        r.push(48 + self.second / 10 % 10);
        r.push(48 + self.second % 10);
        r.push(90);
        assert(r@ =~= self.iso_bytes());
        r
    }
}


/// The value of the two ASCII digits at `b[i]` and `b[i + 1]`.
fn two_digits(b: &[u8], i: usize) -> (r: Option<u8>)
    requires
        i + 1 < b@.len(),
    ensures
        match r {
            Some(v) => {
                &&& 48 <= b@[i as int] <= 57
                &&& 48 <= b@[i + 1] <= 57
                &&& v == (b@[i as int] - 48) * 10 + (b@[i + 1] - 48)
            },
            None => !(48 <= b@[i as int] <= 57 && 48 <= b@[i + 1] <= 57),
        },
{
    match (digit_value(b[i]), digit_value(b[i + 1])) {
        (Some(hi), Some(lo)) => Some(hi * 10 + lo),
        _ => None,
    }
}

proof fn lemma_two_digit_field(t: UtcTime, v: int, i: int)
    requires
        0 <= v < 100,
        t.iso_bytes()[i] == digit(v / 10),
        t.iso_bytes()[i + 1] == digit(v),
    ensures
        48 <= t.iso_bytes()[i] <= 57,
        48 <= t.iso_bytes()[i + 1] <= 57,
        (t.iso_bytes()[i] - 48) * 10 + (t.iso_bytes()[i + 1] - 48) == v,
{
    lemma_digit(v / 10);
    lemma_digit(v);
    lemma_two_digits(v);
}

impl UtcTime {
    /// Reads the text `YYYY-MM-DDTHH:MM:SSZ`, exactly that form (other ISO-8601
    /// forms, with fractional seconds or a numeric offset, are refused); the
    /// fields must name a real time.
    pub fn parse_iso(b: &[u8]) -> (r: Option<UtcTime>)
        ensures
            match r {
                Some(t) => t.wf() && t.iso_bytes() == b@,
                None => forall|t: UtcTime| #[trigger] t.wf() ==> t.iso_bytes() != b@,
            },
    {
        if b.len() != 20 || b[4] != 45 || b[7] != 45 || b[10] != 84 || b[13] != 58 || b[16] != 58
            || b[19] != 90 {
            return None;
        }
        let hi = two_digits(b, 0);
        let lo = two_digits(b, 2);
        let mo = two_digits(b, 5);
        let d = two_digits(b, 8);
        let h = two_digits(b, 11);
        let mi = two_digits(b, 14);
        let s = two_digits(b, 17);
        if hi.is_none() || lo.is_none() || mo.is_none() || d.is_none() || h.is_none()
            || mi.is_none() || s.is_none() {
            proof {
                assert forall|t: UtcTime| #[trigger] t.wf() implies t.iso_bytes() != b@ by {
                    if t.iso_bytes() == b@ {
                        lemma_digit(t.year as int / 1000);
                        lemma_digit(t.year as int / 100);
                        lemma_digit(t.year as int / 10);
                        lemma_digit(t.year as int);
                        lemma_two_digit_field(t, t.month as int, 5);
                        lemma_two_digit_field(t, t.day as int, 8);
                        lemma_two_digit_field(t, t.hour as int, 11);
                        lemma_two_digit_field(t, t.minute as int, 14);
                        lemma_two_digit_field(t, t.second as int, 17);
                    }
                }
            }
            return None;
        }
        let year: u16 = hi.unwrap() as u16 * 100 + lo.unwrap() as u16;
        let t = UtcTime {
            year,
            month: mo.unwrap(),
            day: d.unwrap(),
            hour: h.unwrap(),
            minute: mi.unwrap(),
            second: s.unwrap(),
        };
        proof {
            let a = b@[0] - 48;
            let bb = b@[1] - 48;
            let c = b@[2] - 48;
            let dd = b@[3] - 48;
            assert(year == a * 1000 + bb * 100 + c * 10 + dd);
            lemma_compose_four(a, bb, c, dd);
            lemma_compose_two_digits(b@[5] - 48, b@[6] - 48);
            lemma_compose_two_digits(b@[8] - 48, b@[9] - 48);
            lemma_compose_two_digits(b@[11] - 48, b@[12] - 48);
            lemma_compose_two_digits(b@[14] - 48, b@[15] - 48);
            lemma_compose_two_digits(b@[17] - 48, b@[18] - 48);
            assert(t.iso_bytes() =~= b@);
        }
        if year < 1970 || year > 9999 || t.month < 1 || t.month > 12 || t.day < 1 || t.day
            > month_days(year, t.month) || t.hour >= 24 || t.minute >= 60 || t.second >= 60 {
            proof {
                assert forall|u: UtcTime| #[trigger] u.wf() implies u.iso_bytes() != b@ by {
                    if u.iso_bytes() == b@ {
                        lemma_iso_injective_raw(t, u);
                    }
                }
            }
            return None;
        }
        Some(t)
    }
}

proof fn lemma_days_before_month_mono(y: int, a: int, b: int)
    requires
        1 <= a <= b,
    ensures
        days_before_month(y, a) <= days_before_month(y, b),
    decreases b - a,
{
    if a < b {
        lemma_days_before_month_mono(y, a, b - 1);
    }
}

/// The day of the year, counted from 0, of a well-formed time.
proof fn lemma_day_of_year_bound(t: UtcTime)
    requires
        t.wf(),
    ensures
        0 <= days_before_month(t.year as int, t.month as int) + t.day - 1 < year_len(t.year as int),
{
    let y = t.year as int;
    let m = t.month as int;
    lemma_days_before_month_bound(y, m);
    lemma_days_before_month_mono(y, m + 1, 13);
    lemma_year_total(y);
}

/// Two well-formed times with the same count of seconds are the same time.
pub proof fn lemma_unix_secs_injective(a: UtcTime, b: UtcTime)
    requires
        a.wf(),
        b.wf(),
        a.spec_unix_secs() == b.spec_unix_secs(),
    ensures
        a == b,
{
    let da = a.day_number();
    let db = b.day_number();
    let sa = a.second_of_day();
    let sb = b.second_of_day();
    assert(da == db && sa == sb) by (nonlinear_arith)
        requires
            da * 86400 + sa == db * 86400 + sb,
            0 <= sa < 86400,
            0 <= sb < 86400,
    ;
    assert(a.hour == b.hour && a.minute == b.minute && a.second == b.second) by (nonlinear_arith)
        requires
            a.hour * 3600 + a.minute * 60 + a.second == b.hour * 3600 + b.minute * 60 + b.second,
            a.minute < 60 && a.second < 60 && b.minute < 60 && b.second < 60,
    ;
    lemma_day_of_year_bound(a);
    lemma_day_of_year_bound(b);
    let ya = a.year as int;
    let yb = b.year as int;
    if ya < yb {
        lemma_days_before_year_mono(ya + 1, yb);
        assert(days_before_year(ya + 1) == days_before_year(ya) + year_len(ya));
    } else if yb < ya {
        lemma_days_before_year_mono(yb + 1, ya);
        assert(days_before_year(yb + 1) == days_before_year(yb) + year_len(yb));
    }
    assert(ya == yb);
    let ma = a.month as int;
    let mb = b.month as int;
    if ma < mb {
        lemma_days_before_month_mono(ya, ma + 1, mb);
    } else if mb < ma {
        lemma_days_before_month_mono(ya, mb + 1, ma);
    }
    assert(ma == mb);
}

} // verus!
