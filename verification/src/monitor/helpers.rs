//! Text helpers of the dashboard.

use vstd::prelude::*;
use vstd::string::*;
use vstd::utf8::*;

use crate::text;

verus! {

// TRUNCATION
// ================================================================================================

/// Whether the first `n` characters are the most which fit into `max_bytes` bytes.
pub open spec fn is_longest_fit(value: Seq<char>, max_bytes: nat, n: int) -> bool {
    &&& 0 <= n <= value.len()
    &&& encode_utf8(value.take(n)).len() <= max_bytes
    &&& n < value.len() ==> encode_utf8(value.take(n + 1)).len() > max_bytes
}

/// The bytes of the first `n` characters end at a character boundary.
proof fn lemma_prefix_ends_at_boundary(value: Seq<char>, n: int)
    requires
        0 <= n <= value.len(),
    ensures
        is_char_boundary(encode_utf8(value), encode_utf8(value.take(n)).len() as int),
        encode_utf8(value.take(n)).len() <= encode_utf8(value).len(),
    decreases n,
{
    encode_utf8_valid_utf8(value);
    if n == 0 {
        assert(value.take(0) =~= Seq::empty());
    } else {
        let rest = value.drop_first();
        let prefix = value.take(n);
        assert(prefix.drop_first() =~= rest.take(n - 1));
        lemma_prefix_ends_at_boundary(rest, n - 1);
        encode_utf8_first_scalar(value);
        encode_utf8_first_scalar(prefix);
        let bytes = encode_utf8(value);
        let first = encode_scalar(value[0] as u32);
        assert(bytes == first + encode_utf8(rest));
        assert(encode_utf8(prefix) == first + encode_utf8(rest.take(n - 1)));
        assert(pop_first_scalar(bytes) =~= encode_utf8(rest));
        assert(length_of_first_scalar(bytes) == first.len());
    }
}

/// Returns the longest prefix of `value` which takes at most `max_bytes` bytes and does not split a
/// character.
pub fn truncate(value: &str, max_bytes: usize) -> (prefix: &str)
    ensures
        is_longest_fit(value@, max_bytes as nat, prefix@.len() as int),
        prefix@ == value@.take(prefix@.len() as int),
{
    let ghost bytes = value.spec_bytes();
    proof {
        encode_utf8_valid_utf8(value@);
        is_char_boundary_start_end_of_seq(bytes);
    }
    let length: usize = value.as_bytes().len();
    if length <= max_bytes {
        assert(value@.take(value@.len() as int) =~= value@);
        return value;
    }
    let mut end: usize = max_bytes;
    while !value.is_char_boundary(end)
        invariant
            bytes == value.spec_bytes(),
            is_char_boundary(bytes, 0),
            end <= max_bytes < bytes.len(),
            forall|k: int| end < k <= max_bytes ==> !is_char_boundary(bytes, k),
        decreases end,
    {
        end = end - 1;
    }
    let (prefix, rest) = value.split_at(end);
    proof {
        decode_utf8_split(bytes, end as int);
        encode_utf8_decode_utf8(value@);
        encode_utf8_decode_utf8(prefix@);
        encode_utf8_decode_utf8(rest@);
        assert(value@ =~= prefix@ + rest@);
        let n = prefix@.len() as int;
        assert(value@.take(n) =~= prefix@);
        if n < value@.len() {
            lemma_prefix_ends_at_boundary(value@, n + 1);
            lemma_prefix_grows(value@, n);
        }
    }
    prefix
}

/// One more character takes more bytes.
proof fn lemma_prefix_grows(value: Seq<char>, n: int)
    requires
        0 <= n < value.len(),
    ensures
        encode_utf8(value.take(n)).len() < encode_utf8(value.take(n + 1)).len(),
    decreases n,
{
    let longer = value.take(n + 1);
    assert(longer[0] == value[0]);
    if n == 0 {
        assert(value.take(0) =~= Seq::empty());
        assert(longer.drop_first() =~= Seq::empty());
    } else {
        let rest = value.drop_first();
        lemma_prefix_grows(rest, n - 1);
        assert(value.take(n).drop_first() =~= rest.take(n - 1));
        assert(longer.drop_first() =~= rest.take(n));
    }
}

// TIMESTAMPS
// ================================================================================================

/// The first second of the year 10000, which no four-digit year can show.
pub const FIRST_UNREPRESENTABLE_SECOND: u64 = 253_402_300_800;

/// Whether a year of the Gregorian calendar is a leap year.
pub open spec fn is_leap_year(year: nat) -> bool {
    year % 4 == 0 && (year % 100 != 0 || year % 400 == 0)
}

/// The number of leap years from year one up to and including `year`.
pub open spec fn leap_years_through(year: int) -> int {
    year / 4 - year / 100 + year / 400
}

/// The number of days from the Unix epoch to the first day of `year`.
pub open spec fn days_before_year(year: nat) -> int {
    365 * (year - 1970) + leap_years_through(year - 1) - leap_years_through(1969)
}

/// The number of days of a year.
pub open spec fn days_of_year(year: nat) -> nat {
    if is_leap_year(year) {
        366
    } else {
        365
    }
}

/// The number of days of a month.
pub open spec fn days_of_month(year: nat, month: nat) -> nat {
    if month == 2 {
        if is_leap_year(year) {
            29
        } else {
            28
        }
    } else if month == 4 || month == 6 || month == 9 || month == 11 {
        30
    } else {
        31
    }
}

/// The number of days from the first day of the year to the first day of `month`.
pub open spec fn days_before_month(year: nat, month: nat) -> nat
    decreases month,
{
    if month <= 1 {
        0
    } else {
        days_before_month(year, (month - 1) as nat) + days_of_month(year, (month - 1) as nat)
    }
}

/// A point in time, in UTC.
pub struct CivilTime {
    pub year: nat,
    pub month: nat,
    pub day: nat,
    pub hour: nat,
    pub minute: nat,
    pub second: nat,
}

impl CivilTime {
    /// Whether there is such a point in time, from the Unix epoch on.
    pub open spec fn valid(self) -> bool {
        &&& self.year >= 1970
        &&& 1 <= self.month <= 12
        &&& 1 <= self.day <= days_of_month(self.year, self.month)
        &&& self.hour < 24
        &&& self.minute < 60
        &&& self.second < 60
    }

    /// The days since the Unix epoch.
    pub open spec fn day_number(self) -> int {
        days_before_year(self.year) + days_before_month(self.year, self.month) + self.day - 1
    }

    /// The seconds since the Unix epoch.
    pub open spec fn seconds(self) -> int {
        86_400 * self.day_number() + 3600 * self.hour + 60 * self.minute + self.second
    }

    /// The text of the point in time.
    pub open spec fn text(self) -> Seq<char> {
        text::four_digits(self.year) + "-"@ + text::two_digits(self.month) + "-"@
            + text::two_digits(self.day) + " "@ + text::two_digits(self.hour) + ":"@
            + text::two_digits(self.minute) + ":"@ + text::two_digits(self.second) + " UTC"@
    }
}

proof fn lemma_next_year(year: nat)
    requires
        year >= 1970,
    ensures
        days_before_year(year + 1) == days_before_year(year) + days_of_year(year),
{
}

proof fn lemma_days_before_year_grow(year: nat, later: nat)
    requires
        1970 <= year <= later,
    ensures
        days_before_year(year) <= days_before_year(later),
    decreases later - year,
{
    if year < later {
        lemma_next_year(year);
        lemma_days_before_year_grow(year + 1, later);
    }
}

proof fn lemma_days_before_month_grow(year: nat, month: nat, later: nat)
    requires
        1 <= month <= later,
    ensures
        days_before_month(year, month) <= days_before_month(year, later),
    decreases later - month,
{
    if month < later {
        lemma_days_before_month_grow(year, month + 1, later);
    }
}

proof fn lemma_months_fill_the_year(year: nat)
    ensures
        days_before_month(year, 13) == days_of_year(year),
{
    reveal_with_fuel(days_before_month, 14);
}

/// A point in time is determined by its seconds since the Unix epoch.
pub proof fn law_seconds_determine_the_time(a: CivilTime, b: CivilTime)
    requires
        a.valid(),
        b.valid(),
        a.seconds() == b.seconds(),
    ensures
        a == b,
{
    assert(a.day_number() == b.day_number());
    lemma_same_year(a, b);
    lemma_same_year(b, a);
    assert(a.year == b.year);
    if a.month < b.month {
        lemma_days_before_month_grow(a.year, a.month + 1, b.month);
    } else if b.month < a.month {
        lemma_days_before_month_grow(a.year, b.month + 1, a.month);
    }
}

proof fn lemma_same_year(a: CivilTime, b: CivilTime)
    requires
        a.valid(),
        b.valid(),
        a.day_number() == b.day_number(),
    ensures
        a.year >= b.year,
{
    if a.year < b.year {
        lemma_next_year(a.year);
        lemma_days_before_year_grow(a.year + 1, b.year);
        lemma_months_fill_the_year(a.year);
        lemma_days_before_month_grow(a.year, a.month + 1, 13);
    }
}

fn leap_year(year: u64) -> (leap: bool)
    ensures
        leap == is_leap_year(year as nat),
{
    year % 4 == 0 && (year % 100 != 0 || year % 400 == 0)
}

fn month_length(year: u64, month: u64) -> (days: u64)
    ensures
        days == days_of_month(year as nat, month as nat),
{
    if month == 2 {
        if leap_year(year) {
            29
        } else {
            28
        }
    } else if month == 4 || month == 6 || month == 9 || month == 11 {
        30
    } else {
        31
    }
}

/// Finds the year of a day: the year, and the days since its first day.
fn split_year(days: u64) -> (split: (u64, u64))
    requires
        days < days_before_year(10_000),
    ensures
        1970 <= split.0 < 10_000,
        days_before_year(split.0 as nat) + split.1 == days,
        split.1 < days_of_year(split.0 as nat),
{
    let mut year: u64 = 1970;
    let mut rest: u64 = days;
    loop
        invariant
            days < days_before_year(10_000),
            1970 <= year < 10_000,
            days_before_year(year as nat) + rest == days,
        decreases rest,
    {
        let length: u64 = if leap_year(year) {
            366
        } else {
            365
        };
        if rest < length {
            return (year, rest);
        }
        proof {
            lemma_next_year(year as nat);
            if year + 1 >= 10_000 {
                lemma_days_before_year_grow(10_000, (year + 1) as nat);
            }
        }
        rest = rest - length;
        year = year + 1;
    }
}

/// Finds the month of a day of the year: the month, and the days since its first day.
fn split_month(year: u64, days: u64) -> (split: (u64, u64))
    requires
        days < days_of_year(year as nat),
    ensures
        1 <= split.0 <= 12,
        days_before_month(year as nat, split.0 as nat) + split.1 == days,
        split.1 < days_of_month(year as nat, split.0 as nat),
{
    let mut month: u64 = 1;
    let mut rest: u64 = days;
    proof {
        lemma_months_fill_the_year(year as nat);
    }
    loop
        invariant
            days < days_of_year(year as nat),
            days_before_month(year as nat, 13) == days_of_year(year as nat),
            1 <= month <= 12,
            days_before_month(year as nat, month as nat) + rest == days,
        decreases rest,
    {
        let length: u64 = month_length(year, month);
        if rest < length {
            return (month, rest);
        }
        rest = rest - length;
        month = month + 1;
    }
}

/// Whether a text can be given for the time: it is set, and its year has four digits.
pub open spec fn is_representable(timestamp: u64) -> bool {
    0 < timestamp < FIRST_UNREPRESENTABLE_SECOND
}

/// Renders seconds since the Unix epoch as a point in time in UTC. A time which is not set, or
/// which cannot be represented, renders as a dash.
pub fn format_timestamp(timestamp: u64) -> (rendered: String)
    ensures
        if is_representable(timestamp) {
            exists|time: CivilTime| #[trigger]
                time.valid() && time.seconds() == timestamp && rendered@ == time.text()
        } else {
            rendered@ == "-"@
        },
{
    if timestamp == 0 || timestamp >= FIRST_UNREPRESENTABLE_SECOND {
        return "-".to_owned();
    }
    let (year, day_of_year) = split_year(timestamp / 86_400);
    let (month, day) = split_month(year, day_of_year);
    let second_of_day: u64 = timestamp % 86_400;
    let hour: u64 = second_of_day / 3600;
    let minute: u64 = (second_of_day / 60) % 60;
    let second: u64 = second_of_day % 60;
    let ghost time = CivilTime {
        year: year as nat,
        month: month as nat,
        day: (day + 1) as nat,
        hour: hour as nat,
        minute: minute as nat,
        second: second as nat,
    };
    assert(time.valid());
    assert(time.seconds() == timestamp);

    let mut rendered = String::new();
    text::push_four_digits(&mut rendered, year);
    rendered.append("-");
    text::push_two_digits(&mut rendered, month);
    rendered.append("-");
    text::push_two_digits(&mut rendered, day + 1);
    rendered.append(" ");
    text::push_two_digits(&mut rendered, hour);
    rendered.append(":");
    text::push_two_digits(&mut rendered, minute);
    rendered.append(":");
    text::push_two_digits(&mut rendered, second);
    rendered.append(" UTC");
    assert(rendered@ =~= time.text());
    rendered
}

// LAWS OF HELPERS
// ================================================================================================

proof fn lemma_longer_prefixes_take_more_bytes(value: Seq<char>, n: int, m: int)
    requires
        0 <= n <= m <= value.len(),
    ensures
        encode_utf8(value.take(n)).len() + (m - n) <= encode_utf8(value.take(m)).len(),
    decreases m - n,
{
    if n < m {
        lemma_longer_prefixes_take_more_bytes(value, n, m - 1);
        lemma_prefix_grows(value, m - 1);
    }
}

/// A text is cut where it has to be: a run of its first characters fits exactly when it is not longer
/// than what is kept.
pub proof fn law_truncation_keeps_all_that_fits(value: Seq<char>, max_bytes: nat, n: int, m: int)
    requires
        is_longest_fit(value, max_bytes, n),
        0 <= m <= value.len(),
    ensures
        encode_utf8(value.take(m)).len() <= max_bytes <==> m <= n,
{
    if m <= n {
        lemma_longer_prefixes_take_more_bytes(value, m, n);
    } else {
        lemma_longer_prefixes_take_more_bytes(value, n + 1, m);
    }
}

/// Seconds count from the start of 1970, sixty to a minute, sixty minutes to an hour and twenty-four
/// hours to a day.
pub proof fn law_clock_counts_up(time: CivilTime)
    ensures
        (CivilTime { year: 1970, month: 1, day: 1, hour: 0, minute: 0, second: 0 }).seconds() == 0,
        (CivilTime { second: time.second + 1, ..time }).seconds() == time.seconds() + 1,
        (CivilTime { minute: time.minute + 1, ..time }).seconds() == time.seconds() + 60,
        (CivilTime { hour: time.hour + 1, ..time }).seconds() == time.seconds() + 60 * 60,
        (CivilTime { day: time.day + 1, ..time }).seconds() == time.seconds() + 24 * 60 * 60,
{
    assert((CivilTime { day: time.day + 1, ..time }).day_number() == time.day_number() + 1);
}

/// A month starts 28, 29, 30 or 31 days before the next one. February has 29 days in every fourth
/// year, but for the hundredth ones which are not four-hundredth ones.
pub proof fn law_months_have_their_lengths(year: nat, month: nat)
    requires
        1 <= month <= 12,
    ensures
        ({
            let leap = (year % 4 == 0 && year % 100 != 0) || year % 400 == 0;
            let days = if month == 2 && leap {
                29int
            } else if month == 2 {
                28
            } else if month == 4 || month == 6 || month == 9 || month == 11 {
                30
            } else {
                31
            };
            let first = CivilTime { year, month, day: 1, hour: 0, minute: 0, second: 0 };
            let next = CivilTime { month: month + 1, ..first };
            &&& next.seconds() - first.seconds() == 86_400 * days
            &&& forall|day: nat|
                year >= 1970 ==> ((#[trigger] CivilTime { day, ..first }.valid()) <==> 1 <= day
                    <= days)
        }),
{
    let first = CivilTime { year, month, day: 1, hour: 0, minute: 0, second: 0 };
    let next = CivilTime { month: month + 1, ..first };
    assert(days_before_month(year, month + 1) == days_before_month(year, month) + days_of_month(
        year,
        month,
    ));
    assert(next.day_number() - first.day_number() == days_of_month(year, month));
}

/// A year starts where the thirteenth month of the one before it would, and a point in time has a
/// month of the twelve, an hour of the day, a minute and a second.
pub proof fn law_years_follow_each_other(year: nat, time: CivilTime)
    requires
        year >= 1970,
    ensures
        (CivilTime {
            year: year + 1,
            month: 1,
            day: 1,
            hour: 0,
            minute: 0,
            second: 0,
        }).seconds() == (CivilTime {
            year,
            month: 13,
            day: 1,
            hour: 0,
            minute: 0,
            second: 0,
        }).seconds(),
        time.valid() ==> time.year >= 1970 && 1 <= time.month <= 12 && 1 <= time.day <= 31
            && time.hour < 24 && time.minute < 60 && time.second < 60,
        time.year >= 1970 && 1 <= time.month <= 12 && 1 <= time.day <= 28 && time.hour < 24
            && time.minute < 60 && time.second < 60 ==> time.valid(),
{
    lemma_months_fill_the_year(year);
    lemma_next_year(year);
    let next = CivilTime { year: year + 1, month: 1, day: 1, hour: 0, minute: 0, second: 0 };
    let over = CivilTime { year, month: 13, day: 1, hour: 0, minute: 0, second: 0 };
    assert(next.day_number() == over.day_number());
}

/// A time has a text from one second after the epoch until the start of the year 10000.
pub proof fn law_times_of_four_digit_years_are_shown(timestamp: u64)
    ensures
        is_representable(timestamp) <==> 1 <= timestamp < (CivilTime {
            year: 10_000,
            month: 1,
            day: 1,
            hour: 0,
            minute: 0,
            second: 0,
        }).seconds(),
{
    let end = CivilTime { year: 10_000, month: 1, day: 1, hour: 0, minute: 0, second: 0 };
    assert(end.day_number() == 2_932_897);
}

/// A text which starts with some characters, a mark and more characters shows each in its place.
proof fn lemma_text_behind_a_mark(front: Seq<char>, mark: char, back: Seq<char>, whole: Seq<char>)
    requires
        front.len() + 1 + back.len() <= whole.len(),
        whole.take((front.len() + 1 + back.len()) as int) == front + seq![mark] + back,
    ensures
        whole.take(front.len() as int) == front,
        whole[front.len() as int] == mark,
        whole.subrange((front.len() + 1) as int, (front.len() + 1 + back.len()) as int) == back,
{
    let joined = front + seq![mark] + back;
    assert(forall|i: int| 0 <= i < joined.len() ==> #[trigger] joined[i] == whole[i]);
    assert(whole.take(front.len() as int) =~= front);
    assert(joined[front.len() as int] == mark);
    assert forall|i: int| 0 <= i < back.len() implies whole[front.len() + 1 + i] == #[trigger] back[i] by {
        assert(joined[front.len() + 1 + i] == back[i]);
    }
    assert(whole.subrange((front.len() + 1) as int, (front.len() + 1 + back.len()) as int) =~= back);
}

/// The text of a time shows its year, month, day, hour, minute and second, each in its place.
#[verifier::spinoff_prover]
#[verifier::rlimit(50)]
pub proof fn law_time_text_shows_each_part(time: CivilTime)
    requires
        time.valid(),
        time.year < 10_000,
    ensures
        ({
            let shown = time.text();
            &&& shown.len() == 23
            &&& text::decimal_value(shown.subrange(0, 4)) == time.year
            &&& shown[4] == '-'
            &&& text::decimal_value(shown.subrange(5, 7)) == time.month
            &&& shown[7] == '-'
            &&& text::decimal_value(shown.subrange(8, 10)) == time.day
            &&& shown[10] == ' '
            &&& text::decimal_value(shown.subrange(11, 13)) == time.hour
            &&& shown[13] == ':'
            &&& text::decimal_value(shown.subrange(14, 16)) == time.minute
            &&& shown[16] == ':'
            &&& text::decimal_value(shown.subrange(17, 19)) == time.second
            &&& shown.subrange(19, 23) == seq![' ', 'U', 'T', 'C']
        }),
{
    let shown = time.text();
    let year = text::four_digits(time.year);
    let month = text::two_digits(time.month);
    let day = text::two_digits(time.day);
    let hour = text::two_digits(time.hour);
    let minute = text::two_digits(time.minute);
    let second = text::two_digits(time.second);
    lemma_four_digits_denote(time.year);
    lemma_two_digits_denote(time.month);
    lemma_two_digits_denote(time.day);
    lemma_two_digits_denote(time.hour);
    lemma_two_digits_denote(time.minute);
    lemma_two_digits_denote(time.second);
    lemma_marks();
    lemma_parts_of_a_time(year, month, day, hour, minute, second, shown);
}

proof fn lemma_two_digits_denote(n: nat)
    requires
        n < 100,
    ensures
        text::two_digits(n).len() == 2,
        text::decimal_value(text::two_digits(n)) == n,
{
    text::law_padded_text_denotes_the_last_digits(n);
}

proof fn lemma_four_digits_denote(n: nat)
    requires
        n < 10_000,
    ensures
        text::four_digits(n).len() == 4,
        text::decimal_value(text::four_digits(n)) == n,
{
    text::law_padded_text_denotes_the_last_digits(n);
}

proof fn lemma_marks()
    ensures
        "-"@ == seq!['-'],
        " "@ == seq![' '],
        ":"@ == seq![':'],
        " UTC"@ == seq![' ', 'U', 'T', 'C'],
{
    reveal_strlit("-");
    reveal_strlit(" ");
    reveal_strlit(":");
    reveal_strlit(" UTC");
    assert("-"@ =~= seq!['-']);
    assert(" "@ =~= seq![' ']);
    assert(":"@ =~= seq![':']);
    assert(" UTC"@ =~= seq![' ', 'U', 'T', 'C']);
}

/// The parts of a time stand in its text where their lengths put them.
proof fn lemma_parts_of_a_time(
    year: Seq<char>,
    month: Seq<char>,
    day: Seq<char>,
    hour: Seq<char>,
    minute: Seq<char>,
    second: Seq<char>,
    shown: Seq<char>,
)
    requires
        year.len() == 4,
        month.len() == 2,
        day.len() == 2,
        hour.len() == 2,
        minute.len() == 2,
        second.len() == 2,
        shown == year + seq!['-'] + month + seq!['-'] + day + seq![' '] + hour + seq![':'] + minute
            + seq![':'] + second + seq![' ', 'U', 'T', 'C'],
    ensures
        shown.len() == 23,
        shown.subrange(0, 4) == year,
        shown[4] == '-',
        shown.subrange(5, 7) == month,
        shown[7] == '-',
        shown.subrange(8, 10) == day,
        shown[10] == ' ',
        shown.subrange(11, 13) == hour,
        shown[13] == ':',
        shown.subrange(14, 16) == minute,
        shown[16] == ':',
        shown.subrange(17, 19) == second,
        shown.subrange(19, 23) == seq![' ', 'U', 'T', 'C'],
{
    let through_month = year + seq!['-'] + month;
    let through_day = through_month + seq!['-'] + day;
    let through_hour = through_day + seq![' '] + hour;
    let through_minute = through_hour + seq![':'] + minute;
    let through_second = through_minute + seq![':'] + second;
    assert(shown == through_second + seq![' ', 'U', 'T', 'C']);
    assert(shown.take(19) =~= through_second);
    assert(shown.subrange(19, 23) =~= seq![' ', 'U', 'T', 'C']);
    lemma_text_behind_a_mark(through_minute, ':', second, shown);
    lemma_text_behind_a_mark(through_hour, ':', minute, shown);
    lemma_text_behind_a_mark(through_day, ' ', hour, shown);
    lemma_text_behind_a_mark(through_month, '-', day, shown);
    lemma_text_behind_a_mark(year, '-', month, shown);
    assert(shown.subrange(0, 4) =~= shown.take(4));
}

} // verus!
