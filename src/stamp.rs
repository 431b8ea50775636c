//! Points in time to the second, as backups are labelled with them, and their
//! fixed-width text `YYYY-MM-DD-HHMMSS`, whose order as text is their order
//! in time.
use vstd::prelude::*;

verus! {

/// Whether `y` is a leap year of the Gregorian calendar.
pub open spec fn is_leap(y: int) -> bool {
    (y % 4 == 0 && y % 100 != 0) || y % 400 == 0
}

/// The number of days in month `m` (1 to 12) of year `y`.
pub open spec fn month_days(y: int, m: int) -> int {
    if m == 2 {
        if is_leap(y) {
            29
        } else {
            28
        }
    } else if m == 4 || m == 6 || m == 9 || m == 11 {
        30
    } else {
        31
    }
}

/// A date and time of day, to the second.
#[derive(Clone, Copy, Debug, PartialEq, Eq, Structural)]
pub struct Timestamp {
    pub year: u16,
    pub month: u8,
    pub day: u8,
    pub hour: u8,
    pub minute: u8,
    pub second: u8,
}

impl Timestamp {
    /// A real date of a four-digit year, and a real time of day.
    pub open spec fn wf(&self) -> bool {
        &&& self.year <= 9999
        &&& 1 <= self.month <= 12
        &&& 1 <= self.day <= month_days(self.year as int, self.month as int)
        &&& self.hour < 24
        &&& self.minute < 60
        &&& self.second < 60
    }

    /// The digits of the text read as one number: `YYYYMMDDHHMMSS`. Later
    /// points in time have larger keys.
    pub open spec fn key(&self) -> int {
        ((((self.year as int * 100 + self.month as int) * 100 + self.day as int) * 100
            + self.hour as int) * 100 + self.minute as int) * 100 + self.second as int
    }
}

/// The character of the decimal digit `d`.
pub open spec fn digit(d: int) -> char {
    (d + 48) as char
}

/// Whether `c` is a decimal digit.
pub open spec fn is_digit(c: char) -> bool {
    '0' <= c <= '9'
}

/// `n` in decimal with exactly `w` digits, leading zeros included (the
/// higher digits are dropped where `n` has more).
pub open spec fn digits(n: int, w: nat) -> Seq<char>
    decreases w,
{
    if w == 0 {
        Seq::empty()
    } else {
        digits(n / 10, (w - 1) as nat).push(digit(n % 10))
    }
}

/// The number that the decimal digits `q` write.
pub open spec fn digits_value(q: Seq<char>) -> int
    decreases q.len(),
{
    if q.len() == 0 {
        0
    } else {
        digits_value(q.drop_last()) * 10 + (q.last() as int - 48)
    }
}

/// Whether every character of `q` is a decimal digit.
pub open spec fn all_digits(q: Seq<char>) -> bool {
    forall|i: int| 0 <= i < q.len() ==> is_digit(#[trigger] q[i])
}

/// Ten to the power `w`.
pub open spec fn pow10(w: nat) -> int
    decreases w,
{
    if w == 0 {
        1
    } else {
        10 * pow10((w - 1) as nat)
    }
}

/// The text of `t`: `YYYY-MM-DD-HHMMSS`.
pub open spec fn stamp_text(t: Timestamp) -> Seq<char> {
    digits(t.year as int, 4) + seq!['-'] + digits(t.month as int, 2) + seq!['-'] + digits(
        t.day as int,
        2,
    ) + seq!['-'] + digits(t.hour as int, 2) + digits(t.minute as int, 2) + digits(
        t.second as int,
        2,
    )
}

/// The length of every stamp text.
pub const STAMP_LEN: usize = 17;

/// A number written with `w` digits reads back as that number.
proof fn lemma_digits_value(n: int, w: nat)
    requires
        0 <= n < pow10(w),
    ensures
        digits(n, w).len() == w,
        all_digits(digits(n, w)),
        digits_value(digits(n, w)) == n,
    decreases w,
{
    if w > 0 {
        assert(n / 10 < pow10((w - 1) as nat)) by (nonlinear_arith)
            requires
                0 <= n < 10 * pow10((w - 1) as nat),
        ;
        lemma_digits_value(n / 10, (w - 1) as nat);
        assert(digits(n, w).drop_last() =~= digits(n / 10, (w - 1) as nat));
    }
}

/// Decimal digits are the digits of the number they write.
proof fn lemma_digits_of_value(q: Seq<char>)
    requires
        all_digits(q),
    ensures
        digits(digits_value(q), q.len()) == q,
        0 <= digits_value(q) < pow10(q.len()),
    decreases q.len(),
{
    if q.len() > 0 {
        let p = q.drop_last();
        assert(all_digits(p)) by {
            assert forall|i: int| 0 <= i < p.len() implies is_digit(#[trigger] p[i]) by {
                assert(p[i] == q[i]);
            }
        }
        lemma_digits_of_value(p);
        let v = digits_value(q);
        let d = q.last() as int - 48;
        assert(is_digit(q[q.len() - 1]));
        assert(v / 10 == digits_value(p) && v % 10 == d) by (nonlinear_arith)
            requires
                v == digits_value(p) * 10 + d,
                0 <= d < 10,
                digits_value(p) >= 0,
        ;
        assert(digit(d) == q.last());
        assert(digits(v, q.len()) =~= q);
        assert(v < pow10(q.len())) by (nonlinear_arith)
            requires
                v == digits_value(p) * 10 + d,
                0 <= d < 10,
                digits_value(p) < pow10(p.len()),
                pow10(q.len()) == 10 * pow10(p.len()),
        ;
    }
}

pub(crate) fn digit_text(d: u32) -> (r: &'static str)
    requires
        d < 10,
    ensures
        r@ == seq![digit(d as int)],
{
    let ds = "0123456789";
    proof {
        reveal_strlit("0123456789");
    }
    ds.substring_char(d as usize, d as usize + 1)
}

fn append_digits(out: &mut String, n: u32, w: u32)
    ensures
        final(out)@ == old(out)@ + digits(n as int, w as nat),
    decreases w,
{
    if w > 0 {
        append_digits(out, n / 10, w - 1);
        out.append(digit_text(n % 10));
    }
}

fn append_dash(out: &mut String)
    ensures
        final(out)@ == old(out)@ + seq!['-'],
{
    proof {
        reveal_strlit("-");
    }
    out.append("-");
}

/// The number of days in month `m` of year `y`.
pub fn days_in_month(y: u16, m: u8) -> (r: u8)
    ensures
        r == month_days(y as int, m as int),
{
    if m == 2 {
        if (y % 4 == 0 && y % 100 != 0) || y % 400 == 0 {
            29
        } else {
            28
        }
    } else if m == 4 || m == 6 || m == 9 || m == 11 {
        30
    } else {
        31
    }
}

impl Timestamp {
    /// Whether the fields make a real date and time of a four-digit year.
    pub fn is_valid(&self) -> (r: bool)
        ensures
            r == self.wf(),
    {
        self.year <= 9999 && 1 <= self.month && self.month <= 12 && 1 <= self.day && self.day
            <= days_in_month(self.year, self.month) && self.hour < 24 && self.minute < 60
            && self.second < 60
    }

    /// The text `YYYY-MM-DD-HHMMSS`.
    pub fn text(&self) -> (r: String)
        ensures
            r@ == stamp_text(*self),
    {
        let mut out = String::new();
        append_digits(&mut out, self.year as u32, 4);
        append_dash(&mut out);
        append_digits(&mut out, self.month as u32, 2);
        append_dash(&mut out);
        append_digits(&mut out, self.day as u32, 2);
        append_dash(&mut out);
        append_digits(&mut out, self.hour as u32, 2);
        append_digits(&mut out, self.minute as u32, 2);
        append_digits(&mut out, self.second as u32, 2);
        assert(out@ =~= stamp_text(*self));
        out
    }
}


/// The number written by the `w` characters of `q` from `from`.
pub open spec fn field(q: Seq<char>, from: int, w: int) -> int {
    digits_value(q.subrange(from, from + w))
}

/// Whether the `w` characters of `q` from `from` are all digits.
pub open spec fn digit_run(q: Seq<char>, from: int, w: int) -> bool {
    all_digits(q.subrange(from, from + w))
}

/// The timestamp whose fields the digits of `q` write, read at the places
/// where a stamp text has them.
pub open spec fn decode(q: Seq<char>) -> Timestamp {
    Timestamp {
        year: field(q, 0, 4) as u16,
        month: field(q, 5, 2) as u8,
        day: field(q, 8, 2) as u8,
        hour: field(q, 11, 2) as u8,
        minute: field(q, 13, 2) as u8,
        second: field(q, 15, 2) as u8,
    }
}

/// Whether `q` has the shape of a stamp text and writes a real date and time.
pub open spec fn is_stamp_text(q: Seq<char>) -> bool {
    &&& q.len() == 17
    &&& q[4] == '-' && q[7] == '-' && q[10] == '-'
    &&& digit_run(q, 0, 4) && digit_run(q, 5, 2) && digit_run(q, 8, 2)
    &&& digit_run(q, 11, 2) && digit_run(q, 13, 2) && digit_run(q, 15, 2)
    &&& decode(q).wf()
}

proof fn lemma_pow10_small()
    ensures
        pow10(2) == 100,
        pow10(4) == 10000,
{
    reveal_with_fuel(pow10, 5);
}

/// The text of a timestamp has the shape of a stamp text and reads back as it.
pub proof fn lemma_stamp_text_decodes(t: Timestamp)
    requires
        t.wf(),
    ensures
        is_stamp_text(stamp_text(t)),
        decode(stamp_text(t)) == t,
{
    lemma_pow10_small();
    lemma_digits_value(t.year as int, 4);
    lemma_digits_value(t.month as int, 2);
    lemma_digits_value(t.day as int, 2);
    lemma_digits_value(t.hour as int, 2);
    lemma_digits_value(t.minute as int, 2);
    lemma_digits_value(t.second as int, 2);
    let q = stamp_text(t);
    assert(q.subrange(0, 4) =~= digits(t.year as int, 4));
    assert(q.subrange(5, 7) =~= digits(t.month as int, 2));
    assert(q.subrange(8, 10) =~= digits(t.day as int, 2));
    assert(q.subrange(11, 13) =~= digits(t.hour as int, 2));
    assert(q.subrange(13, 15) =~= digits(t.minute as int, 2));
    assert(q.subrange(15, 17) =~= digits(t.second as int, 2));
}

/// A text of the shape of a stamp text is the text of what it decodes to.
pub proof fn lemma_decode_text(q: Seq<char>)
    requires
        is_stamp_text(q),
    ensures
        stamp_text(decode(q)) == q,
{
    lemma_pow10_small();
    lemma_digits_of_value(q.subrange(0, 4));
    lemma_digits_of_value(q.subrange(5, 7));
    lemma_digits_of_value(q.subrange(8, 10));
    lemma_digits_of_value(q.subrange(11, 13));
    lemma_digits_of_value(q.subrange(13, 15));
    lemma_digits_of_value(q.subrange(15, 17));
    let t = decode(q);
    assert(stamp_text(t) =~= q);
}

/// A text without the shape of a stamp text is the text of no timestamp.
proof fn lemma_not_stamp_text(q: Seq<char>)
    requires
        !is_stamp_text(q),
    ensures
        forall|t: Timestamp| t.wf() ==> stamp_text(t) != q,
{
    assert forall|t: Timestamp| t.wf() implies stamp_text(t) != q by {
        lemma_stamp_text_decodes(t);
    }
}

/// Reads the `w` characters of `s` from `from` as a decimal number.
fn number_at(s: &str, from: usize, w: usize) -> (r: Option<u32>)
    requires
        from + w <= s@.len(),
        from + w <= STAMP_LEN,
        w <= 4,
    ensures
        r is Some <==> digit_run(s@, from as int, w as int),
        r matches Some(v) ==> v == field(s@, from as int, w as int),
{
    let mut v: u32 = 0;
    let mut i: usize = 0;
    while i < w
        invariant
            from + w <= s@.len(),
            from + w <= STAMP_LEN,
            w <= 4,
            i <= w,
            all_digits(s@.subrange(from as int, from + i)),
            v == digits_value(s@.subrange(from as int, from + i)),
        decreases w - i,
    {
        let ghost done = s@.subrange(from as int, from + i);
        let ghost next = s@.subrange(from as int, from + i + 1);
        assert(next.drop_last() =~= done);
        proof {
            lemma_digits_of_value(done);
            lemma_pow10_small();
            reveal_with_fuel(pow10, 5);
        }
        let c = s.get_char(from + i);
        if !(c >= '0' && c <= '9') {
            assert(!is_digit(next[i as int]));
            assert(!digit_run(s@, from as int, w as int)) by {
                assert(s@.subrange(from as int, from + w)[i as int] == next[i as int]);
            }
            return None;
        }
        v = v * 10 + (c as u32 - 48);
        i = i + 1;
        assert(all_digits(next)) by {
            assert forall|j: int| 0 <= j < next.len() implies is_digit(#[trigger] next[j]) by {
                if j < i - 1 {
                    assert(next[j] == done[j]);
                }
            }
        }
    }
    Some(v)
}

/// Reads a stamp text `YYYY-MM-DD-HHMMSS`; none unless `s` is the text of a
/// real date and time.
pub fn parse_stamp(s: &str) -> (r: Option<Timestamp>)
    ensures
        r is Some <==> is_stamp_text(s@),
        r matches Some(t) ==> t.wf() && stamp_text(t) == s@,
        r is None ==> forall|t: Timestamp| t.wf() ==> stamp_text(t) != s@,
{
    if s.unicode_len() != STAMP_LEN || s.get_char(4) != '-' || s.get_char(7) != '-' || s.get_char(10)
        != '-' {
        proof {
            lemma_not_stamp_text(s@);
        }
        return None;
    }
    let year = number_at(s, 0, 4);
    let month = number_at(s, 5, 2);
    let day = number_at(s, 8, 2);
    let hour = number_at(s, 11, 2);
    let minute = number_at(s, 13, 2);
    let second = number_at(s, 15, 2);
    match (year, month, day, hour, minute, second) {
        (Some(y), Some(mo), Some(d), Some(h), Some(mi), Some(se)) => {
            proof {
                lemma_pow10_small();
                lemma_digits_of_value(s@.subrange(0, 4));
                lemma_digits_of_value(s@.subrange(5, 7));
                lemma_digits_of_value(s@.subrange(8, 10));
                lemma_digits_of_value(s@.subrange(11, 13));
                lemma_digits_of_value(s@.subrange(13, 15));
                lemma_digits_of_value(s@.subrange(15, 17));
            }
            let t = Timestamp {
                year: y as u16,
                month: mo as u8,
                day: d as u8,
                hour: h as u8,
                minute: mi as u8,
                second: se as u8,
            };
            assert(t == decode(s@));
            if t.is_valid() {
                proof {
                    lemma_decode_text(s@);
                }
                Some(t)
            } else {
                proof {
                    lemma_not_stamp_text(s@);
                }
                None
            }
        },
        _ => {
            proof {
                lemma_not_stamp_text(s@);
            }
            None
        },
    }
}

/// The number of days in year `y`.
pub open spec fn year_days(y: int) -> int {
    if is_leap(y) {
        366
    } else {
        365
    }
}

/// The days from 1970-01-01 to the first day of year `y` (from 1970 on).
pub open spec fn days_before_year(y: int) -> int
    decreases y - 1970,
{
    if y <= 1970 {
        0
    } else {
        days_before_year(y - 1) + year_days(y - 1)
    }
}

/// The days from the first day of year `y` to the first day of month `m`.
pub open spec fn days_before_month(y: int, m: int) -> int
    decreases m,
{
    if m <= 1 {
        0
    } else {
        days_before_month(y, m - 1) + month_days(y, m - 1)
    }
}

impl Timestamp {
    /// The seconds from 1970-01-01 00:00:00 to this point in time.
    pub open spec fn unix_seconds(&self) -> int {
        (days_before_year(self.year as int) + days_before_month(self.year as int, self.month as int)
            + self.day - 1) * 86400 + self.hour * 3600 + self.minute * 60 + self.second
    }
}

/// The first second that `from_unix_seconds` does not take: years from
/// 1970 on fit four digits up to there.
pub const UNIX_SECONDS_LIMIT: u64 = 253_234_080_000;

proof fn lemma_days_before_year_grows(y: int)
    requires
        y >= 1970,
    ensures
        days_before_year(y) >= 365 * (y - 1970),
    decreases y - 1970,
{
    if y > 1970 {
        lemma_days_before_year_grows(y - 1);
    }
}

proof fn lemma_months_make_year(y: int)
    ensures
        days_before_month(y, 13) == year_days(y),
{
    reveal_with_fuel(days_before_month, 13);
}

fn year_length(y: u16) -> (r: u64)
    ensures
        r == year_days(y as int),
{
    if (y % 4 == 0 && y % 100 != 0) || y % 400 == 0 {
        366
    } else {
        365
    }
}

impl Timestamp {
    /// The point in time `secs` seconds after 1970-01-01 00:00:00, without
    /// leap seconds.
    pub fn from_unix_seconds(secs: u64) -> (t: Timestamp)
        requires
            secs < UNIX_SECONDS_LIMIT,
        ensures
            t.wf(),
            t.year >= 1970,
            t.unix_seconds() == secs,
    {
        let total = secs / 86400;
        let rest = secs % 86400;
        let mut days = total;
        let mut y: u16 = 1970;
        while days >= year_length(y)
            invariant
                1970 <= y <= 9999,
                total < 2_930_950,
                days_before_year(y as int) + days == total,
            decreases days,
        {
            proof {
                lemma_days_before_year_grows(y + 1);
            }
            days = days - year_length(y);
            y = y + 1;
        }
        let mut m: u8 = 1;
        proof {
            lemma_months_make_year(y as int);
        }
        while days >= days_in_month(y, m) as u64
            invariant
                1 <= m <= 12,
                days_before_month(y as int, m as int) + days < year_days(y as int),
                days_before_month(y as int, 13) == year_days(y as int),
                days_before_year(y as int) + days_before_month(y as int, m as int) + days == total,
            decreases days,
        {
            if m == 12 {
                assert(days_before_month(y as int, 13) == days_before_month(y as int, 12) + month_days(y as int, 12));
            }
            days = days - days_in_month(y, m) as u64;
            m = m + 1;
        }
        let t = Timestamp {
            year: y,
            month: m,
            day: (days + 1) as u8,
            hour: (rest / 3600) as u8,
            minute: (rest % 3600 / 60) as u8,
            second: (rest % 60) as u8,
        };
        assert(t.unix_seconds() == secs) by (nonlinear_arith)
            requires
                t.unix_seconds() == total * 86400 + (rest / 3600) * 3600 + (rest % 3600 / 60) * 60 + rest % 60,
                secs == total * 86400 + rest,
                rest < 86400,
        ;
        t
    }
}

} // verus!
