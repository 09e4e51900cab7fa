//! The times of requests that are carried out later, as ISO 8601 writes them.

use vstd::prelude::*;

use crate::text;
use crate::text::{char_digit, chars_of};

verus! {

/// A day of the calendar and a time of that day.
#[derive(Debug, Clone, Copy, PartialEq, Eq, Structural)]
pub struct Moment {
    pub year: i64,
    pub month: i64,
    pub day: i64,
    pub hour: i64,
    pub minute: i64,
    pub second: i64,
    /// By how many minutes the time of day is ahead of UTC.
    pub offset: i64,
}

// ---------------------------------------------------------------------------------------------
// The calendar
// ---------------------------------------------------------------------------------------------
/// The days from the first day of the first year to the first day of 1970.
pub const DAYS_TO_EPOCH: i64 = 719_162;

/// The year has a leap day.
pub open spec fn is_leap(year: int) -> bool {
    year % 4 == 0 && (year % 100 != 0 || year % 400 == 0)
}

/// How many days a month has.
pub open spec fn month_len(year: int, month: int) -> int {
    if month == 2 {
        if is_leap(year) {
            29
        } else {
            28
        }
    } else if month == 4 || month == 6 || month == 9 || month == 11 {
        30
    } else {
        31
    }
}

/// How many days of a year come before a month.
pub open spec fn days_before(year: int, month: int) -> int
    decreases month,
{
    if month <= 1 {
        0
    } else {
        days_before(year, month - 1) + month_len(year, month - 1)
    }
}

/// The number of a day, counted from the first day of 1970.
pub open spec fn day_number(year: int, month: int, day: int) -> int {
    365 * (year - 1) + (year - 1) / 4 - (year - 1) / 100 + (year - 1) / 400 + days_before(
        year,
        month,
    ) + day - 1 - DAYS_TO_EPOCH
}

/// There is such a day and such a time of day.
pub open spec fn valid(m: Moment) -> bool {
    &&& 1 <= m.year <= 9999
    &&& 1 <= m.month <= 12
    &&& 1 <= m.day <= month_len(m.year as int, m.month as int)
    &&& 0 <= m.hour <= 23
    &&& 0 <= m.minute <= 59
    &&& 0 <= m.second <= 59
    &&& -1439 <= m.offset <= 1439
}

/// The seconds from the Unix epoch to a moment.
pub open spec fn seconds_of(m: Moment) -> int {
    ((day_number(m.year as int, m.month as int, m.day as int) * 24 + m.hour) * 60 + m.minute
        - m.offset) * 60 + m.second
}

fn find_month_len(year: i64, month: i64) -> (r: i64)
    requires
        1 <= year <= 9999,
    ensures
        r == month_len(year as int, month as int),
{
    if month == 2 {
        if year % 4 == 0 && (year % 100 != 0 || year % 400 == 0) {
            29
        } else {
            28
        }
    } else if month == 4 || month == 6 || month == 9 || month == 11 {
        30
    } else {
        31
    }
}

fn find_days_before(year: i64, month: i64) -> (r: i64)
    requires
        1 <= year <= 9999,
        1 <= month <= 12,
    ensures
        r == days_before(year as int, month as int),
        0 <= r <= 31 * (month - 1),
{
    let mut days: i64 = 0;
    let mut i: i64 = 1;
    while i < month
        invariant
            1 <= year <= 9999,
            1 <= i <= month <= 12,
            days == days_before(year as int, i as int),
            0 <= days <= 31 * (i - 1),
        decreases month - i,
    {
        days = days + find_month_len(year, i);
        i = i + 1;
    }
    days
}

impl Moment {
    fn is_valid(&self) -> (r: bool)
        ensures
            r == valid(*self),
    {
        1 <= self.year && self.year <= 9999 && 1 <= self.month && self.month <= 12 && 1 <= self.day
            && self.day <= find_month_len(self.year, self.month) && 0 <= self.hour && self.hour
            <= 23 && 0 <= self.minute && self.minute <= 59 && 0 <= self.second && self.second <= 59
            && -1439 <= self.offset && self.offset <= 1439
    }

    /// The seconds from the Unix epoch to this moment.
    pub fn seconds(&self) -> (r: i64)
        requires
            valid(*self),
        ensures
            r == seconds_of(*self),
    {
        let y: i64 = self.year - 1;
        let days: i64 = 365 * y + y / 4 - y / 100 + y / 400 + find_days_before(
            self.year,
            self.month,
        ) + self.day - 1 - DAYS_TO_EPOCH;
        ((days * 24 + self.hour) * 60 + self.minute - self.offset) * 60 + self.second
    }
}

// ---------------------------------------------------------------------------------------------
// The text
// ---------------------------------------------------------------------------------------------
/// The number that the two digits at `i` spell.
pub open spec fn pair(t: Seq<char>, i: int) -> Option<nat> {
    match (text::digit_of(t[i], false), text::digit_of(t[i + 1], false)) {
        (Some(a), Some(b)) => Some(10 * a + b),
        _ => None,
    }
}

/// How many digits `t` begins with.
pub open spec fn digit_run(t: Seq<char>) -> nat
    decreases t.len(),
{
    if t.len() == 0 || text::digit_of(t[0], false) is None {
        0
    } else {
        1 + digit_run(t.skip(1))
    }
}

/// The seconds that follow hour and minute, and what follows them. They may be left out; a
/// fraction of a second does not count.
pub open spec fn seconds_in(t: Seq<char>) -> Option<(nat, Seq<char>)> {
    if t.len() == 0 || t[0] != ':' {
        Some((0, t))
    } else if t.len() < 3 || pair(t, 1) is None {
        None
    } else if t.len() > 3 && t[3] == '.' {
        let n = digit_run(t.skip(4));
        if n == 0 {
            None
        } else {
            Some((pair(t, 1)->0, t.skip(4 + n as int)))
        }
    } else {
        Some((pair(t, 1)->0, t.skip(3)))
    }
}

/// By how many minutes a time is ahead of UTC: `Z` or nothing stands for UTC itself.
pub open spec fn offset_in(t: Seq<char>) -> Option<int> {
    if t.len() == 0 || (t.len() == 1 && t[0] == 'Z') {
        Some(0)
    } else if t.len() != 6 || (t[0] != '+' && t[0] != '-') || t[3] != ':' {
        None
    } else {
        match (pair(t, 1), pair(t, 4)) {
            (Some(h), Some(m)) => if h > 23 || m > 59 {
                None
            } else if t[0] == '+' {
                Some((60 * h + m) as int)
            } else {
                Some(-(60 * h + m))
            },
            _ => None,
        }
    }
}

/// The moment that a text spells: `YYYY-MM-DDThh:mm`, seconds, and the offset from UTC.
pub open spec fn moment_in(t: Seq<char>) -> Option<Moment> {
    if t.len() < 16 || t[4] != '-' || t[7] != '-' || t[10] != 'T' || t[13] != ':' {
        None
    } else if pair(t, 0) is None || pair(t, 2) is None || pair(t, 5) is None || pair(t, 8) is None
        || pair(t, 11) is None || pair(t, 14) is None {
        None
    } else {
        match seconds_in(t.skip(16)) {
            Some((second, zone)) => match offset_in(zone) {
                Some(offset) => {
                    let m = Moment {
                        year: (100 * pair(t, 0)->0 + pair(t, 2)->0) as i64,
                        month: pair(t, 5)->0 as i64,
                        day: pair(t, 8)->0 as i64,
                        hour: pair(t, 11)->0 as i64,
                        minute: pair(t, 14)->0 as i64,
                        second: second as i64,
                        offset: offset as i64,
                    };
                    if valid(m) {
                        Some(m)
                    } else {
                        None
                    }
                },
                None => None,
            },
            None => None,
        }
    }
}

fn read_pair(v: &Vec<char>, i: usize) -> (r: Option<i64>)
    requires
        i + 1 < v@.len(),
    ensures
        match r {
            Some(n) => pair(v@, i as int) == Some(n as nat) && 0 <= n <= 99,
            None => pair(v@, i as int) is None,
        },
{
    assert(v.len() == v@.len());
    match (char_digit(v[i], false), char_digit(v[i + 1], false)) {
        (Some(a), Some(b)) => Some(10 * (a as i64) + (b as i64)),
        _ => None,
    }
}

/// The seconds at `from`, and where what follows them begins.
fn read_seconds(v: &Vec<char>, from: usize) -> (r: Option<(i64, usize)>)
    requires
        from <= v@.len(),
    ensures
        match r {
            Some((second, next)) => from <= next <= v@.len() && 0 <= second <= 99 && seconds_in(
                v@.skip(from as int),
            ) == Some((second as nat, v@.skip(next as int))),
            None => seconds_in(v@.skip(from as int)) is None,
        },
{
    let ghost t = v@.skip(from as int);
    let left: usize = v.len() - from;
    if left == 0 || v[from] != ':' {
        return Some((0, from));
    }
    if left < 3 {
        return None;
    }
    let second: i64 = match read_pair(v, from + 1) {
        Some(n) => n,
        None => {
            return None;
        },
    };
    assert(pair(t, 1) == pair(v@, from + 1));
    if left == 3 || v[from + 3] != '.' {
        assert(t.skip(3) =~= v@.skip(from + 3));
        return Some((second, from + 3));
    }
    let start: usize = from + 4;
    let mut end: usize = start;
    while end < v.len() && char_digit(v[end], false).is_some()
        invariant
            start <= end <= v@.len(),
            digit_run(v@.skip(start as int)) == end - start + digit_run(v@.skip(end as int)),
        decreases v@.len() - end,
    {
        assert(v@.skip(end as int)[0] == v@[end as int]);
        assert(v@.skip(end as int).skip(1) =~= v@.skip(end + 1));
        end = end + 1;
    }
    assert(t.skip(4) =~= v@.skip(start as int));
    assert(digit_run(v@.skip(end as int)) == 0) by {
        if end < v@.len() {
            assert(v@.skip(end as int)[0] == v@[end as int]);
        }
    }
    if end == start {
        return None;
    }
    assert(t.skip(4 + (end - start)) =~= v@.skip(end as int));
    Some((second, end))
}

fn read_offset(v: &Vec<char>, from: usize) -> (r: Option<i64>)
    requires
        from <= v@.len(),
    ensures
        match r {
            Some(n) => offset_in(v@.skip(from as int)) == Some(n as int) && -1439 <= n <= 1439,
            None => offset_in(v@.skip(from as int)) is None,
        },
{
    let ghost t = v@.skip(from as int);
    let left: usize = v.len() - from;
    if left == 0 || (left == 1 && v[from] == 'Z') {
        return Some(0);
    }
    if left != 6 || (v[from] != '+' && v[from] != '-') || v[from + 3] != ':' {
        return None;
    }
    assert(pair(t, 1) == pair(v@, from + 1) && pair(t, 4) == pair(v@, from + 4));
    match (read_pair(v, from + 1), read_pair(v, from + 4)) {
        (Some(h), Some(m)) => if h > 23 || m > 59 {
            None
        } else if v[from] == '+' {
            Some(60 * h + m)
        } else {
            Some(-(60 * h + m))
        },
        _ => None,
    }
}

/// The moment that a text spells, if it does.
pub fn parse_moment(s: &str) -> (r: Option<Moment>)
    ensures
        r == moment_in(s@),
        r matches Some(m) ==> valid(m),
{
    let v = chars_of(s);
    if v.len() < 16 || v[4] != '-' || v[7] != '-' || v[10] != 'T' || v[13] != ':' {
        return None;
    }
    let (century, year, month, day, hour, minute) = match (
        read_pair(&v, 0),
        read_pair(&v, 2),
        read_pair(&v, 5),
        read_pair(&v, 8),
        read_pair(&v, 11),
        read_pair(&v, 14),
    ) {
        (Some(a), Some(b), Some(c), Some(d), Some(e), Some(f)) => (a, b, c, d, e, f),
        _ => {
            return None;
        },
    };
    match read_seconds(&v, 16) {
        Some((second, zone)) => match read_offset(&v, zone) {
            Some(offset) => {
                let m = Moment { year: 100 * century + year, month, day, hour, minute, second, offset };
                if m.is_valid() {
                    Some(m)
                } else {
                    None
                }
            },
            None => None,
        },
        None => None,
    }
}

/// The time that a text spells has come at `now`, in seconds since the Unix epoch.
pub open spec fn has_come(t: Seq<char>, now: u64) -> bool {
    match moment_in(t) {
        Some(m) => seconds_of(m) <= now,
        None => false,
    }
}

/// Whether the time that a text spells has come at `now`, in seconds since the Unix epoch. A text
/// that spells no time is never due.
pub fn is_due(s: &str, now: u64) -> (r: bool)
    ensures
        r == has_come(s@, now),
{
    match parse_moment(s) {
        Some(m) => {
            let at: i64 = m.seconds();
            at < 0 || at as u64 <= now
        },
        None => false,
    }
}

// ---------------------------------------------------------------------------------------------
// Laws
// ---------------------------------------------------------------------------------------------
/// Days are counted one by one, across the ends of months and years, and the first day of 1970 is
/// the first.
pub proof fn law_days_are_consecutive(year: int, month: int, day: int)
    requires
        1 <= year,
        1 <= month <= 12,
        1 <= day <= month_len(year, month),
    ensures
        day_number(1970, 1, 1) == 0,
        day < month_len(year, month) ==> day_number(year, month, day + 1) == day_number(
            year,
            month,
            day,
        ) + 1,
        day == month_len(year, month) && month < 12 ==> day_number(year, month + 1, 1)
            == day_number(year, month, day) + 1,
        day == month_len(year, month) && month == 12 ==> day_number(year + 1, 1, 1) == day_number(
            year,
            month,
            day,
        ) + 1,
{
    reveal_with_fuel(days_before, 13);
}

/// Each month has the days that the calendar gives it, and so has each year.
pub proof fn law_calendar(year: int, month: int)
    ensures
        month == 2 && year % 4 == 0 && year % 100 != 0 ==> month_len(year, month) == 29,
        month == 2 && year % 400 == 0 ==> month_len(year, month) == 29,
        month == 2 && year % 4 != 0 ==> month_len(year, month) == 28,
        month == 2 && year % 100 == 0 && year % 400 != 0 ==> month_len(year, month) == 28,
        month == 4 || month == 6 || month == 9 || month == 11 ==> month_len(year, month) == 30,
        month == 1 || month == 3 || month == 5 || month == 7 || month == 8 || month == 10 || month
            == 12 ==> month_len(year, month) == 31,
        days_before(year, 12) + month_len(year, 12) == 337 + month_len(year, 2),
{
    reveal_with_fuel(days_before, 13);
}

proof fn lemma_digit_run(t: Seq<char>)
    ensures
        digit_run(t) <= t.len(),
    decreases t.len(),
{
    if t.len() > 0 {
        lemma_digit_run(t.skip(1));
    }
}

/// A text that spells a moment has its digits at fixed places: four for the year and two each for
/// month, day, hour and minute, with their marks between them. Seconds that are left out are none,
/// and what is ahead of UTC by its sign comes that much earlier.
pub proof fn law_digits_spell_the_moment(t: Seq<char>, m: Moment)
    requires
        moment_in(t) == Some(m),
    ensures
        t.len() >= 16,
        t[4] == '-' && t[7] == '-' && t[10] == 'T' && t[13] == ':',
        forall|i: int|
            #![trigger t[i]]
            0 <= i < 16 && i != 4 && i != 7 && i != 10 && i != 13 ==> '0' <= t[i] <= '9',
        m.year == 1000 * (t[0] as int - '0' as int) + 100 * (t[1] as int - '0' as int) + 10 * (
        t[2] as int - '0' as int) + (t[3] as int - '0' as int),
        m.month == 10 * (t[5] as int - '0' as int) + (t[6] as int - '0' as int),
        m.day == 10 * (t[8] as int - '0' as int) + (t[9] as int - '0' as int),
        m.hour == 10 * (t[11] as int - '0' as int) + (t[12] as int - '0' as int),
        m.minute == 10 * (t[14] as int - '0' as int) + (t[15] as int - '0' as int),
        t.len() == 16 ==> m.second == 0 && m.offset == 0,
        t.len() == 17 ==> t[16] == 'Z' && m.second == 0 && m.offset == 0,
        t.len() > 16 && t[16] != ':' ==> m.second == 0,
        t.len() > 16 && t[16] == ':' ==> t.len() >= 19 && '0' <= t[17] <= '9' && '0' <= t[18]
            <= '9' && m.second == 10 * (t[17] as int - '0' as int) + (t[18] as int - '0' as int),
        t.last() == 'Z' ==> m.offset == 0,
        1 <= m.month <= 12,
        1 <= m.day <= 31,
        m.hour < 24,
        m.minute < 60,
        m.second < 60,
{
    let u = t.skip(16);
    if t.len() > 16 {
        assert(u[0] == t[16]);
        if t[16] == ':' {
            assert(u[1] == t[17]);
            assert(u[2] == t[18]);
        }
    }
    lemma_digit_run(u.skip(4));
    if let Some((_, zone)) = seconds_in(u) {
        if t.len() > 16 && t[16] != ':' {
            assert(zone == u);
        }
        if zone.len() > 0 {
            assert(zone.last() == t.last());
        }
    }
}

/// A moment is spelled by year, month and day, hour, minute and second, and the sign, hours and
/// minutes by which it is ahead of UTC: such a text is read exactly where there is such a day and
/// such a time.
pub proof fn law_full_text_is_read(t: Seq<char>)
    requires
        t.len() == 25,
        t[4] == '-' && t[7] == '-' && t[10] == 'T' && t[13] == ':' && t[16] == ':' && t[22] == ':',
        t[19] == '+' || t[19] == '-',
        forall|i: int|
            #![trigger t[i]]
            0 <= i < 25 && i != 4 && i != 7 && i != 10 && i != 13 && i != 16 && i != 19 && i != 22
                ==> '0' <= t[i] <= '9',
    ensures
        ({
            let year = 1000 * (t[0] as int - 48) + 100 * (t[1] as int - 48) + 10 * (t[2] as int
                - 48) + (t[3] as int - 48);
            let month = 10 * (t[5] as int - 48) + (t[6] as int - 48);
            let day = 10 * (t[8] as int - 48) + (t[9] as int - 48);
            let hour = 10 * (t[11] as int - 48) + (t[12] as int - 48);
            let minute = 10 * (t[14] as int - 48) + (t[15] as int - 48);
            let second = 10 * (t[17] as int - 48) + (t[18] as int - 48);
            let hours = 10 * (t[20] as int - 48) + (t[21] as int - 48);
            let minutes = 10 * (t[23] as int - 48) + (t[24] as int - 48);
            &&& moment_in(t) is Some <==> year >= 1 && 1 <= month <= 12 && 1 <= day <= month_len(
                year,
                month,
            ) && hour <= 23 && minute <= 59 && second <= 59 && hours <= 23 && minutes <= 59
            &&& moment_in(t) matches Some(m) ==> seconds_of(m) == 86400 * day_number(
                year,
                month,
                day,
            ) + 3600 * hour + 60 * minute + second - (if t[19] == '+' {
                60 * (60 * hours + minutes)
            } else {
                -60 * (60 * hours + minutes)
            })
        }),
{
    let u = t.skip(16);
    assert(u[0] == t[16] && u[1] == t[17] && u[2] == t[18] && u[3] == t[19]);
    assert('0' <= t[17] <= '9' && '0' <= t[18] <= '9');
    let z = u.skip(3);
    assert(z[0] == t[19] && z[1] == t[20] && z[2] == t[21] && z[3] == t[22] && z[4] == t[23]
        && z[5] == t[24]);
    assert('0' <= t[20] <= '9' && '0' <= t[21] <= '9' && '0' <= t[23] <= '9' && '0' <= t[24]
        <= '9');
    assert('0' <= t[0] <= '9' && '0' <= t[1] <= '9' && '0' <= t[2] <= '9' && '0' <= t[3] <= '9');
    assert('0' <= t[5] <= '9' && '0' <= t[6] <= '9' && '0' <= t[8] <= '9' && '0' <= t[9] <= '9');
    assert('0' <= t[11] <= '9' && '0' <= t[12] <= '9' && '0' <= t[14] <= '9' && '0' <= t[15]
        <= '9');
    assert(seconds_in(u) matches Some((_, zone)) && zone == z);
}

/// What has come stays so, and it comes at the second that the text spells; a text that spells no
/// moment never does.
pub proof fn law_moment_comes_once(t: Seq<char>, now: u64, later: u64)
    requires
        now <= later,
    ensures
        has_come(t, now) ==> has_come(t, later),
        moment_in(t) is None ==> !has_come(t, now),
        moment_in(t) matches Some(m) ==> (has_come(t, now) <==> now >= seconds_of(m)),
{
}

} // verus!
