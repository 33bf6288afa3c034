//! Restart schedules: how they are written and when they come due.

use crate::error::{outcome, ErrorView, PyopsError};
use crate::text::{
    after_prefix, all_digits, ascii_lower, cat3, cat5, digit_char, digits_value, is_digit,
    is_whitespace, lemma_find_is, parse_number, parse_u64, same, split_on, split_seq, split_words,
    strip_prefix, texts, to_ascii_lower, trim, trim_start, trimmed, word_len, words,
};
use vstd::prelude::*;

verus! {

#[derive(Debug, Clone, Copy, PartialEq, Eq, Structural)]
pub enum Weekday {
    Mon,
    Tue,
    Wed,
    Thu,
    Fri,
    Sat,
    Sun,
}

/// A time of day, on every day or on one day of the week.
#[derive(Debug, Clone, Copy, PartialEq, Eq, Structural)]
pub enum RestartSchedule {
    Daily { hour: u8, minute: u8 },
    Weekly { weekday: Weekday, hour: u8, minute: u8 },
}

impl View for RestartSchedule {
    type V = RestartSchedule;

    open spec fn view(&self) -> RestartSchedule {
        *self
    }
}

impl RestartSchedule {
    pub open spec fn hour_of(self) -> u8 {
        match self {
            RestartSchedule::Daily { hour, .. } => hour,
            RestartSchedule::Weekly { hour, .. } => hour,
        }
    }

    pub open spec fn minute_of(self) -> u8 {
        match self {
            RestartSchedule::Daily { minute, .. } => minute,
            RestartSchedule::Weekly { minute, .. } => minute,
        }
    }

    /// Whether the schedule names a time of day.
    pub open spec fn valid(self) -> bool {
        self.hour_of() <= 23 && self.minute_of() <= 59
    }
}

/// The day that the lower-case word `v` names.
pub open spec fn day_named(v: Seq<char>) -> Option<Weekday> {
    if v == "mon"@ || v == "monday"@ {
        Some(Weekday::Mon)
    } else if v == "tue"@ || v == "tuesday"@ {
        Some(Weekday::Tue)
    } else if v == "wed"@ || v == "wednesday"@ {
        Some(Weekday::Wed)
    } else if v == "thu"@ || v == "thursday"@ {
        Some(Weekday::Thu)
    } else if v == "fri"@ || v == "friday"@ {
        Some(Weekday::Fri)
    } else if v == "sat"@ || v == "saturday"@ {
        Some(Weekday::Sat)
    } else if v == "sun"@ || v == "sunday"@ {
        Some(Weekday::Sun)
    } else {
        None
    }
}

impl Weekday {
    /// The number of the day in the week, counted from Sunday.
    pub open spec fn number(self) -> int {
        match self {
            Weekday::Sun => 0,
            Weekday::Mon => 1,
            Weekday::Tue => 2,
            Weekday::Wed => 3,
            Weekday::Thu => 4,
            Weekday::Fri => 5,
            Weekday::Sat => 6,
        }
    }

    /// The day that `value` names, in capital or small letters.
    pub fn from_str(value: &str) -> (r: Option<Self>)
        ensures
            r == day_named(ascii_lower(value@)),
    {
        let lower = to_ascii_lower(value);
        let v = lower.as_str();
        if same(v, "mon") || same(v, "monday") {
            Some(Weekday::Mon)
        } else if same(v, "tue") || same(v, "tuesday") {
            Some(Weekday::Tue)
        } else if same(v, "wed") || same(v, "wednesday") {
            Some(Weekday::Wed)
        } else if same(v, "thu") || same(v, "thursday") {
            Some(Weekday::Thu)
        } else if same(v, "fri") || same(v, "friday") {
            Some(Weekday::Fri)
        } else if same(v, "sat") || same(v, "saturday") {
            Some(Weekday::Sat)
        } else if same(v, "sun") || same(v, "sunday") {
            Some(Weekday::Sun)
        } else {
            None
        }
    }

    /// The number of the day in the week, counted from Sunday.
    pub fn to_tm_wday(self) -> (r: i32)
        ensures
            r == self.number(),
            0 <= r <= 6,
    {
        match self {
            Weekday::Sun => 0,
            Weekday::Mon => 1,
            Weekday::Tue => 2,
            Weekday::Wed => 3,
            Weekday::Thu => 4,
            Weekday::Fri => 5,
            Weekday::Sat => 6,
        }
    }
}

/// The hour and minute that `input` writes as `HH:MM`.
pub open spec fn time_of(input: Seq<char>) -> Result<(u8, u8), ErrorView> {
    let parts = split_seq(input, ':');
    let hour = parse_number(parts[0], 255);
    let minute = parse_number(parts[1], 255);
    if parts.len() != 2 {
        Err(ErrorView::Config("invalid time '"@ + input + "': expected HH:MM"@))
    } else if hour is None {
        Err(ErrorView::Config("invalid hour '"@ + parts[0] + "'"@))
    } else if minute is None {
        Err(ErrorView::Config("invalid minute '"@ + parts[1] + "'"@))
    } else if hour->0 > 23 || minute->0 > 59 {
        Err(
            ErrorView::Config(
                "invalid time '"@ + input + "': hour must be 0..23 and minute 0..59"@,
            ),
        )
    } else {
        Ok((hour->0 as u8, minute->0 as u8))
    }
}

/// The hour and minute that `input` writes as `HH:MM`.
pub fn parse_hhmm(input: &str) -> (r: Result<(u8, u8), PyopsError>)
    ensures
        outcome(r) == time_of(input@),
        r is Ok ==> r->Ok_0.0 <= 23 && r->Ok_0.1 <= 59,
{
    let parts = split_on(input, ':');
    let ghost pieces = texts(parts@);
    if parts.len() != 2 {
        return Err(PyopsError::Config(cat3("invalid time '", input, "': expected HH:MM")));
    }
    assert(pieces[0] == parts@[0]@ && pieces[1] == parts@[1]@);
    let hour = match parse_u64(parts[0].as_str(), 255) {
        Some(h) => h,
        None => {
            return Err(PyopsError::Config(cat3("invalid hour '", parts[0].as_str(), "'")));
        },
    };
    let minute = match parse_u64(parts[1].as_str(), 255) {
        Some(m) => m,
        None => {
            return Err(PyopsError::Config(cat3("invalid minute '", parts[1].as_str(), "'")));
        },
    };
    if hour > 23 || minute > 59 {
        return Err(
            PyopsError::Config(
                cat3("invalid time '", input, "': hour must be 0..23 and minute 0..59"),
            ),
        );
    }
    Ok((hour as u8, minute as u8))
}

/// The schedule that `input` writes.
pub open spec fn schedule_of(input: Seq<char>) -> Result<RestartSchedule, ErrorView> {
    let raw = trim(input);
    match after_prefix(raw, "daily@"@) {
        Some(time) => match time_of(time) {
            Ok((hour, minute)) => Ok(RestartSchedule::Daily { hour, minute }),
            Err(e) => Err(e),
        },
        None => match after_prefix(raw, "weekly@"@) {
            Some(rest) => weekly_of(words(rest), input),
            None => Err(
                ErrorView::Config(
                    "unsupported restart_schedule '"@ + input
                        + "'; use daily@HH:MM or weekly@sun HH:MM"@,
                ),
            ),
        },
    }
}

/// The weekly schedule that the words `parts` of `input` write.
pub open spec fn weekly_of(parts: Seq<Seq<char>>, input: Seq<char>) -> Result<
    RestartSchedule,
    ErrorView,
> {
    if parts.len() == 0 {
        Err(ErrorView::Config("invalid weekly schedule '"@ + input + "': missing day"@))
    } else if parts.len() == 1 {
        Err(ErrorView::Config("invalid weekly schedule '"@ + input + "': missing time"@))
    } else if parts.len() > 2 {
        Err(
            ErrorView::Config(
                "invalid weekly schedule '"@ + input + "': expected format weekly@sun 03:00"@,
            ),
        )
    } else {
        match day_named(ascii_lower(parts[0])) {
            None => Err(
                ErrorView::Config(
                    "invalid weekday '"@ + parts[0] + "' in schedule '"@ + input
                        + "'; use mon..sun"@,
                ),
            ),
            Some(weekday) => match time_of(parts[1]) {
                Ok((hour, minute)) => Ok(RestartSchedule::Weekly { weekday, hour, minute }),
                Err(e) => Err(e),
            },
        }
    }
}

fn parse_weekly(rest: &str, input: &str) -> (r: Result<RestartSchedule, PyopsError>)
    ensures
        outcome(r) == weekly_of(words(rest@), input@),
        r is Ok ==> r->Ok_0.valid(),
{
    let parts = split_words(rest);
    let ghost pieces = texts(parts@);
    if parts.len() == 0 {
        return Err(
            PyopsError::Config(cat3("invalid weekly schedule '", input, "': missing day")),
        );
    }
    if parts.len() == 1 {
        return Err(
            PyopsError::Config(cat3("invalid weekly schedule '", input, "': missing time")),
        );
    }
    if parts.len() > 2 {
        return Err(
            PyopsError::Config(
                cat3(
                    "invalid weekly schedule '",
                    input,
                    "': expected format weekly@sun 03:00",
                ),
            ),
        );
    }
    assert(pieces[0] == parts@[0]@ && pieces[1] == parts@[1]@);
    let weekday = match Weekday::from_str(parts[0].as_str()) {
        Some(day) => day,
        None => {
            return Err(
                PyopsError::Config(
                    cat5(
                        "invalid weekday '",
                        parts[0].as_str(),
                        "' in schedule '",
                        input,
                        "'; use mon..sun",
                    ),
                ),
            );
        },
    };
    match parse_hhmm(parts[1].as_str()) {
        Ok((hour, minute)) => Ok(RestartSchedule::Weekly { weekday, hour, minute }),
        Err(e) => Err(e),
    }
}

/// The schedule that `input` writes: `daily@HH:MM` or `weekly@day HH:MM`.
pub fn parse_restart_schedule(input: &str) -> (r: Result<RestartSchedule, PyopsError>)
    ensures
        outcome(r) == schedule_of(input@),
        r is Ok ==> r->Ok_0.valid(),
{
    let raw = trimmed(input);
    if let Some(time_part) = strip_prefix(raw.as_str(), "daily@") {
        return match parse_hhmm(time_part.as_str()) {
            Ok((hour, minute)) => Ok(RestartSchedule::Daily { hour, minute }),
            Err(e) => Err(e),
        };
    }
    if let Some(rest) = strip_prefix(raw.as_str(), "weekly@") {
        return parse_weekly(rest.as_str(), input);
    }
    Err(
        PyopsError::Config(
            cat3(
                "unsupported restart_schedule '",
                input,
                "'; use daily@HH:MM or weekly@sun HH:MM",
            ),
        ),
    )
}

// ---- When a schedule comes due ----

/// A moment in local time, in the units of the C library's `struct tm`.
#[derive(Debug, Clone, Copy, PartialEq, Eq, Structural)]
pub struct LocalTime {
    pub sec: i32,
    pub min: i32,
    pub hour: i32,
    pub mday: i32,
    pub mon: i32,
    pub year: i32,
    pub wday: i32,
    pub yday: i32,
    pub isdst: i32,
}

impl LocalTime {
    /// Whether the day of the month and the day of the week are in range.
    pub open spec fn on_calendar(self) -> bool {
        1 <= self.mday <= 31 && 0 <= self.wday <= 6
    }
}

/// How many days after the day of `tm` the schedule may first come due.
pub open spec fn days_ahead(schedule: RestartSchedule, tm: LocalTime) -> int {
    match schedule {
        RestartSchedule::Daily { .. } => 0,
        RestartSchedule::Weekly { weekday, .. } => (weekday.number() - tm.wday) % 7,
    }
}

/// How many days lie between two occurrences of the schedule.
pub open spec fn period_days(schedule: RestartSchedule) -> int {
    match schedule {
        RestartSchedule::Daily { .. } => 1,
        RestartSchedule::Weekly { .. } => 7,
    }
}

/// The scheduled time of day on the first day of `tm` or after it on which the
/// schedule may come due.
pub open spec fn first_try(schedule: RestartSchedule, tm: LocalTime) -> LocalTime {
    LocalTime {
        mday: (tm.mday + days_ahead(schedule, tm)) as i32,
        hour: schedule.hour_of() as i32,
        min: schedule.minute_of() as i32,
        sec: 0,
        ..tm
    }
}

/// The moment one period of the schedule after `tm`.
pub open spec fn second_try(schedule: RestartSchedule, tm: LocalTime) -> LocalTime {
    LocalTime { mday: (tm.mday + period_days(schedule)) as i32, ..tm }
}

/// The time that the calendar gave for a local moment; a negative one stands
/// for none.
pub open spec fn counted(ts: i64) -> Option<u64> {
    if ts < 0 {
        None
    } else {
        Some(ts as u64)
    }
}

/// When the schedule comes due after `now`, given the times of its first and
/// of its second try.
pub open spec fn due_after(now: i64, first: i64, second: i64) -> Option<u64> {
    if first < 0 || first > now {
        counted(first)
    } else {
        counted(second)
    }
}

/// The scheduled time of day on the first day on which the schedule may come
/// due, counted from the day of `tm`.
pub fn first_candidate(schedule: RestartSchedule, tm: LocalTime) -> (r: LocalTime)
    requires
        tm.on_calendar(),
    ensures
        r == first_try(schedule, tm),
{
    let (ahead, hour, minute): (i32, u8, u8) = match schedule {
        RestartSchedule::Daily { hour, minute } => (0, hour, minute),
        RestartSchedule::Weekly { weekday, hour, minute } => {
            let mut delta_days: i32 = weekday.to_tm_wday() - tm.wday;
            if delta_days < 0 {
                delta_days += 7;
            }
            (delta_days, hour, minute)
        },
    };
    let mut candidate = tm;
    candidate.mday = tm.mday + ahead;
    candidate.hour = hour as i32;
    candidate.min = minute as i32;
    candidate.sec = 0;
    candidate
}

/// The moment one period of the schedule after `tm`.
pub fn next_candidate(schedule: RestartSchedule, tm: LocalTime) -> (r: LocalTime)
    requires
        tm.on_calendar(),
    ensures
        r == second_try(schedule, tm),
{
    let days: i32 = match schedule {
        RestartSchedule::Daily { .. } => 1,
        RestartSchedule::Weekly { .. } => 7,
    };
    let mut candidate = tm;
    candidate.mday = tm.mday + days;
    candidate
}

/// The time that the calendar gave for a local moment; a negative one stands
/// for none.
pub fn mktime_local(ts: i64) -> (r: Option<u64>)
    ensures
        r == counted(ts),
{
    if ts < 0 {
        None
    } else {
        Some(ts as u64)
    }
}

/// Whether `r` is when the schedule comes due after `now`, where `local_tm`
/// gave `tm` for `now`, and `mktime` gave `first` for the first try and, where
/// that lies not after `now`, `second` for the second.
pub open spec fn computed_from<L, M>(
    schedule: RestartSchedule,
    now: i64,
    local_tm: L,
    mktime: M,
    tm: Option<LocalTime>,
    first: (i64, LocalTime),
    second: (i64, LocalTime),
    r: Option<u64>,
) -> bool where L: Fn(i64) -> Option<LocalTime>, M: Fn(LocalTime) -> (i64, LocalTime) {
    &&& call_ensures(local_tm, (now,), tm)
    &&& match tm {
        None => r is None,
        Some(here) => {
            &&& call_ensures(mktime, (first_try(schedule, here),), first)
            &&& 0 <= first.0 <= now ==> call_ensures(
                mktime,
                (second_try(schedule, first.1),),
                second,
            )
            &&& r == due_after(now, first.0, second.0)
        },
    }
}

/// When the schedule next comes due after `now_epoch`.
///
/// `local_tm` gives the local time of an epoch time, where there is one;
/// `mktime` gives the epoch time of a local time, negative where there is
/// none, and the local time brought into calendar range.
pub fn next_occurrence<L, M>(
    schedule: RestartSchedule,
    now_epoch: u64,
    local_tm: L,
    mktime: M,
) -> (r: Option<u64>) where L: Fn(i64) -> Option<LocalTime>, M: Fn(LocalTime) -> (i64, LocalTime)
    requires
        forall|t: i64| #[trigger] call_requires(local_tm, (t,)),
        forall|tm: LocalTime| #[trigger] call_requires(mktime, (tm,)),
        forall|t: i64, tm: Option<LocalTime>| #[trigger]
            call_ensures(local_tm, (t,), tm) && tm is Some ==> tm->0.on_calendar(),
        forall|tm: LocalTime, out: (i64, LocalTime)| #[trigger]
            call_ensures(mktime, (tm,), out) && out.0 >= 0 ==> out.1.on_calendar(),
    ensures
        exists|tm: Option<LocalTime>, first: (i64, LocalTime), second: (i64, LocalTime)|
            #[trigger] computed_from(
                schedule,
                now_epoch as i64,
                local_tm,
                mktime,
                tm,
                first,
                second,
                r,
            ),
{
    let now: i64 = #[verifier::truncate]
    (now_epoch as i64);
    let tm = local_tm(now);
    let here = match tm {
        Some(here) => here,
        None => {
            proof {
                let any: (i64, LocalTime) = arbitrary();
                assert(computed_from(schedule, now, local_tm, mktime, tm, any, any, None));
            }
            return None;
        },
    };
    let first = mktime(first_candidate(schedule, here));
    if first.0 < 0 || first.0 > now {
        let r = mktime_local(first.0);
        assert(computed_from(schedule, now, local_tm, mktime, tm, first, first, r));
        return r;
    }
    let second = mktime(next_candidate(schedule, first.1));
    let r = mktime_local(second.0);
    assert(computed_from(schedule, now, local_tm, mktime, tm, first, second, r));
    r
}

/// The hour of a day, in seconds.
pub open spec fn seconds_of(schedule: RestartSchedule) -> int {
    schedule.hour_of() * 3600 + schedule.minute_of() * 60
}

/// Where the clock is not set forward or back between now and the next
/// occurrence, that occurrence lies after now and at most one period away, at
/// the scheduled time of day, and, for a weekly schedule, on the scheduled day.
///
/// `midnight` is the local midnight before `now`; days have 86400 seconds.
pub proof fn law_next_occurrence(
    schedule: RestartSchedule,
    tm: LocalTime,
    now: i64,
    midnight: int,
    first: i64,
    second: i64,
)
    requires
        schedule.valid(),
        tm.on_calendar(),
        0 <= midnight <= now < midnight + 86400,
        first == midnight + days_ahead(schedule, tm) * 86400 + seconds_of(schedule),
        second == first + period_days(schedule) * 86400,
    ensures
        due_after(now, first, second) matches Some(due) && {
            &&& now < due <= now + period_days(schedule) * 86400
            &&& (due - midnight) % 86400 == seconds_of(schedule)
            &&& schedule matches RestartSchedule::Weekly { weekday, .. } ==> (tm.wday + (due
                - midnight) / 86400) % 7 == weekday.number()
        },
{
    let ahead = days_ahead(schedule, tm);
    let tod = seconds_of(schedule);
    assert(0 <= tod < 86400);
    assert(0 <= ahead < period_days(schedule));
    let due = due_after(now, first, second)->0;
    if first > now {
        assert(due - midnight == ahead * 86400 + tod);
    } else {
        assert(ahead == 0);
        assert(due - midnight == period_days(schedule) * 86400 + tod);
    }
    match schedule {
        RestartSchedule::Weekly { weekday, .. } => {
            assert((due - midnight) / 86400 == ahead || (due - midnight) / 86400 == 7 && ahead
                == 0);
            assert((tm.wday + ahead) % 7 == weekday.number());
        },
        _ => {},
    }
}

/// `n` written with two digits.
pub open spec fn two_digits(n: u8) -> Seq<char> {
    seq![digit_char((n / 10) as int), digit_char((n % 10) as int)]
}

/// A time of day written as `HH:MM`.
pub open spec fn hhmm(hour: u8, minute: u8) -> Seq<char> {
    two_digits(hour) + ":"@ + two_digits(minute)
}

proof fn lemma_two_digits(n: u8)
    requires
        n < 100,
    ensures
        parse_number(two_digits(n), 255) == Some(n as int),
        two_digits(n).len() == 2,
        is_digit(two_digits(n)[0]),
        is_digit(two_digits(n)[1]),
{
    let s = two_digits(n);
    let t = s.drop_last();
    assert(t.drop_last() =~= Seq::<char>::empty());
    assert(t.last() == s[0] && s.last() == s[1]);
    assert(digits_value(t.drop_last()) == 0);
    assert(digits_value(t) == n / 10);
    assert(digits_value(s) == n);
    assert(all_digits(s));
}

proof fn lemma_hhmm(hour: u8, minute: u8)
    requires
        hour <= 23,
        minute <= 59,
    ensures
        time_of(hhmm(hour, minute)) == Ok::<(u8, u8), ErrorView>((hour, minute)),
        hhmm(hour, minute).len() == 5,
        forall|i: int| 0 <= i < 5 ==> !is_whitespace(#[trigger] hhmm(hour, minute)[i]),
{
    reveal_strlit(":");
    lemma_two_digits(hour);
    lemma_two_digits(minute);
    let s = hhmm(hour, minute);
    lemma_find_is(s, ':', 2);
    assert(s.take(2) =~= two_digits(hour));
    assert(s.skip(3) =~= two_digits(minute));
    lemma_find_is(two_digits(minute), ':', 2);
    assert(split_seq(two_digits(minute), ':') =~= seq![two_digits(minute)]);
    assert(split_seq(s, ':') =~= seq![two_digits(hour), two_digits(minute)]);
}

proof fn lemma_trim_keeps(s: Seq<char>)
    requires
        s.len() > 0,
        !is_whitespace(s[0]),
        !is_whitespace(s.last()),
    ensures
        trim(s) == s,
{
}

/// Every time of day written as `daily@HH:MM` is read as that daily schedule.
pub proof fn law_daily_schedule(hour: u8, minute: u8)
    requires
        hour <= 23,
        minute <= 59,
    ensures
        schedule_of("daily@"@ + hhmm(hour, minute)) == Ok::<RestartSchedule, ErrorView>(
            RestartSchedule::Daily { hour, minute },
        ),
{
    reveal_strlit("daily@");
    let time = hhmm(hour, minute);
    lemma_hhmm(hour, minute);
    let s = "daily@"@ + time;
    assert(s[0] == 'd');
    assert(s.last() == time[4]);
    lemma_trim_keeps(s);
    assert(s.take(6) =~= "daily@"@);
    assert(s.skip(6) =~= time);
}

proof fn lemma_day_letters(v: Seq<char>)
    requires
        day_named(v) is Some,
    ensures
        v.len() > 0,
        forall|i: int| 0 <= i < v.len() ==> 'a' <= #[trigger] v[i] <= 'z',
{
    reveal_strlit("mon");
    reveal_strlit("monday");
    reveal_strlit("tue");
    reveal_strlit("tuesday");
    reveal_strlit("wed");
    reveal_strlit("wednesday");
    reveal_strlit("thu");
    reveal_strlit("thursday");
    reveal_strlit("fri");
    reveal_strlit("friday");
    reveal_strlit("sat");
    reveal_strlit("saturday");
    reveal_strlit("sun");
    reveal_strlit("sunday");
}

proof fn lemma_word_run(s: Seq<char>, n: int)
    requires
        0 <= n <= s.len(),
        forall|i: int| 0 <= i < n ==> !is_whitespace(#[trigger] s[i]),
        n < s.len() ==> is_whitespace(s[n]),
    ensures
        word_len(s) == n,
{
    crate::text::lemma_word_run(s, n);
}

/// A day of the week and a time of day written as `weekly@day HH:MM` are read
/// as that weekly schedule, whatever the case of the day's letters.
pub proof fn law_weekly_schedule(day: Seq<char>, hour: u8, minute: u8)
    requires
        day_named(ascii_lower(day)) is Some,
        hour <= 23,
        minute <= 59,
    ensures
        schedule_of("weekly@"@ + day + " "@ + hhmm(hour, minute)) == Ok::<
            RestartSchedule,
            ErrorView,
        >(RestartSchedule::Weekly { weekday: day_named(ascii_lower(day))->0, hour, minute }),
{
    reveal_strlit("weekly@");
    reveal_strlit("daily@");
    reveal_strlit(" ");
    let time = hhmm(hour, minute);
    lemma_hhmm(hour, minute);
    let low = ascii_lower(day);
    lemma_day_letters(low);
    assert forall|i: int| 0 <= i < day.len() implies !is_whitespace(#[trigger] day[i]) by {
        assert('a' <= low[i] <= 'z');
    }
    let s = "weekly@"@ + day + " "@ + time;
    let rest = day + " "@ + time;
    assert(s[0] == 'w');
    assert(s.last() == time[4]);
    lemma_trim_keeps(s);
    assert(s.take(6)[0] != "daily@"@[0]);
    assert(s.take(7) =~= "weekly@"@);
    assert(s.skip(7) =~= rest);
    let n = day.len() as int;
    assert(rest[0] == day[0]);
    assert(trim_start(rest) == rest);
    assert forall|i: int| 0 <= i < n implies !is_whitespace(#[trigger] rest[i]) by {
        assert(rest[i] == day[i]);
    }
    lemma_word_run(rest, n);
    assert(rest.take(n) =~= day);
    let tail = rest.skip(n);
    assert(tail =~= " "@ + time);
    assert(tail.skip(1) =~= time);
    assert(trim_start(time) == time);
    assert(trim_start(tail) == time);
    lemma_word_run(time, 5);
    assert(time.take(5) =~= time);
    assert(time.skip(5) =~= Seq::<char>::empty());
    assert(words(time.skip(5)) =~= Seq::<Seq<char>>::empty());
    assert(words(tail) =~= seq![time]);
    assert(words(rest) =~= seq![day, time]);
}

/// The day of the week, counted from Sunday, that a lower-case name stands for;
/// three letters are enough.
pub open spec fn week() -> Seq<Seq<char>> {
    seq!["sunday"@, "monday"@, "tuesday"@, "wednesday"@, "thursday"@, "friday"@, "saturday"@]
}

/// The first try is at the hour and the minute that the schedule names, on the
/// day itself or, for a weekly schedule, on the first day of that name from it
/// on; nothing else of the day is changed.
pub proof fn law_first_try_is_at_the_time(schedule: RestartSchedule, tm: LocalTime)
    requires
        tm.on_calendar(),
    ensures
        ({
            let try_at = first_try(schedule, tm);
            &&& schedule matches RestartSchedule::Daily { hour, minute } ==> try_at.hour == hour
                && try_at.min == minute && try_at.mday == tm.mday
            &&& schedule matches RestartSchedule::Weekly { weekday, hour, minute } ==> {
                &&& try_at.hour == hour
                &&& try_at.min == minute
                &&& tm.mday <= try_at.mday < tm.mday + 7
                &&& (tm.wday + (try_at.mday - tm.mday)) % 7 == weekday.number()
            }
            &&& try_at.sec == 0
            &&& try_at.mon == tm.mon && try_at.year == tm.year && try_at.isdst == tm.isdst
        }),
{
}

/// The second try is a day after the first for a daily schedule and a week after
/// it for a weekly one, at the same time of day.
pub proof fn law_second_try_is_a_period_later(schedule: RestartSchedule, tm: LocalTime)
    requires
        tm.on_calendar(),
    ensures
        ({
            let try_at = second_try(schedule, tm);
            &&& schedule is Daily ==> try_at.mday == tm.mday + 1
            &&& schedule is Weekly ==> try_at.mday == tm.mday + 7
            &&& try_at.hour == tm.hour && try_at.min == tm.min && try_at.sec == tm.sec
            &&& try_at.mon == tm.mon && try_at.year == tm.year && try_at.isdst == tm.isdst
        }),
{
}

/// Whether `at` is the time of each local moment on a calendar whose days all have
/// 86400 seconds, whatever the month.
pub open spec fn even_calendar(at: spec_fn(LocalTime) -> int) -> bool {
    &&& forall|tm: LocalTime, day: i32|
        #![trigger at(LocalTime { mday: day, ..tm })]
        at(LocalTime { mday: day, ..tm }) == at(tm) + (day - tm.mday) * 86400
    &&& forall|tm: LocalTime, hour: i32, min: i32, sec: i32|
        #![trigger at(LocalTime { hour, min, sec, ..tm })]
        at(LocalTime { hour, min, sec, ..tm }) == at(tm) + (hour - tm.hour) * 3600 + (min
            - tm.min) * 60 + (sec - tm.sec)
}

/// On a calendar whose days all have 86400 seconds, a schedule next comes due
/// after now and at most one period away, at exactly the hour and the minute that
/// it names, counted from a local midnight, and, for a weekly schedule, on the
/// named day. That is what `next_occurrence` returns, whatever the calendar's
/// functions are, as long as they agree with `at`.
pub proof fn law_due_at_the_named_time<L, M>(
    schedule: RestartSchedule,
    now: i64,
    local_tm: L,
    mktime: M,
    at: spec_fn(LocalTime) -> int,
    tm: LocalTime,
    first: (i64, LocalTime),
    second: (i64, LocalTime),
    r: Option<u64>,
) where L: Fn(i64) -> Option<LocalTime>, M: Fn(LocalTime) -> (i64, LocalTime)
    requires
        schedule matches RestartSchedule::Daily { hour, minute } ==> hour <= 23 && minute <= 59,
        schedule matches RestartSchedule::Weekly { hour, minute, .. } ==> hour <= 23 && minute
            <= 59,
        tm.on_calendar(),
        0 <= tm.hour <= 23 && 0 <= tm.min <= 59 && 0 <= tm.sec <= 59,
        even_calendar(at),
        at(tm) == now,
        now - tm.hour * 3600 - tm.min * 60 - tm.sec >= 0,
        now + 14 * 86400 <= i64::MAX,
        forall|t: LocalTime, out: (i64, LocalTime)| #[trigger]
            call_ensures(mktime, (t,), out) ==> out.0 == at(t) && at(out.1) == at(t)
                && out.1.on_calendar(),
        computed_from(schedule, now, local_tm, mktime, Some(tm), first, second, r),
    ensures
        ({
            let midnight = now - tm.hour * 3600 - tm.min * 60 - tm.sec;
            &&& r is Some
            &&& now < r->0
            &&& schedule matches RestartSchedule::Daily { hour, minute } ==> {
                &&& r->0 <= now + 86400
                &&& (r->0 - midnight) % 86400 == hour * 3600 + minute * 60
            }
            &&& schedule matches RestartSchedule::Weekly { weekday, hour, minute } ==> {
                &&& r->0 <= now + 7 * 86400
                &&& (r->0 - midnight) % 86400 == hour * 3600 + minute * 60
                &&& (tm.wday + (r->0 - midnight) / 86400) % 7 == weekday.number()
            }
        }),
{
    let midnight = now - tm.hour * 3600 - tm.min * 60 - tm.sec;
    let t = first_try(schedule, tm);
    law_first_try_is_at_the_time(schedule, tm);
    let day = LocalTime { mday: t.mday, ..tm };
    assert(at(day) == at(tm) + (t.mday - tm.mday) * 86400);
    assert(t == LocalTime { hour: t.hour, min: t.min, sec: t.sec, ..day });
    assert(at(t) == at(day) + (t.hour - day.hour) * 3600 + (t.min - day.min) * 60 + (t.sec
        - day.sec));
    assert(first.0 == at(t));
    if first.0 <= now {
        let u = second_try(schedule, first.1);
        law_second_try_is_a_period_later(schedule, first.1);
        assert(u == LocalTime { mday: u.mday, ..first.1 });
        assert(at(u) == at(first.1) + (u.mday - first.1.mday) * 86400);
    }
    law_next_occurrence(schedule, tm, now, midnight, first.0, (first.0 + period_days(schedule)
        * 86400) as i64);
}

/// A weekly schedule comes due on the day whose name it is written with, be that
/// the whole name or its first three letters, in capital or small letters: that
/// day's number, counted from Sunday, is the one the first try falls on.
pub proof fn law_weekly_day_is_the_named_one(
    day: Seq<char>,
    hour: u8,
    minute: u8,
    number: int,
    tm: LocalTime,
)
    requires
        0 <= number < 7,
        ascii_lower(day) == week()[number] || ascii_lower(day) == week()[number].take(3),
        hour <= 23,
        minute <= 59,
        tm.on_calendar(),
    ensures
        ({
            let read = schedule_of("weekly@"@ + day + " "@ + hhmm(hour, minute));
            &&& read is Ok
            &&& first_try(read->Ok_0, tm).hour == hour
            &&& first_try(read->Ok_0, tm).min == minute
            &&& (tm.wday + (first_try(read->Ok_0, tm).mday - tm.mday)) % 7 == number
        }),
{
    lemma_week(ascii_lower(day), number);
    law_weekly_schedule(day, hour, minute);
    law_first_try_is_at_the_time(
        schedule_of("weekly@"@ + day + " "@ + hhmm(hour, minute))->Ok_0,
        tm,
    );
}

proof fn lemma_week(v: Seq<char>, number: int)
    requires
        0 <= number < 7,
        v == week()[number] || v == week()[number].take(3),
    ensures
        day_named(v) is Some,
        day_named(v)->0.number() == number,
{
    reveal_strlit("mon");
    reveal_strlit("monday");
    reveal_strlit("tue");
    reveal_strlit("tuesday");
    reveal_strlit("wed");
    reveal_strlit("wednesday");
    reveal_strlit("thu");
    reveal_strlit("thursday");
    reveal_strlit("fri");
    reveal_strlit("friday");
    reveal_strlit("sat");
    reveal_strlit("saturday");
    reveal_strlit("sun");
    reveal_strlit("sunday");
    assert("sunday"@.take(3) =~= "sun"@);
    assert("monday"@.take(3) =~= "mon"@);
    assert("tuesday"@.take(3) =~= "tue"@);
    assert("wednesday"@.take(3) =~= "wed"@);
    assert("thursday"@.take(3) =~= "thu"@);
    assert("friday"@.take(3) =~= "fri"@);
    assert("saturday"@.take(3) =~= "sat"@);
    lemma_first_letters(v, number);
}

proof fn lemma_first_letters(v: Seq<char>, number: int)
    requires
        0 <= number < 7,
        v == week()[number] || v == week()[number].take(3),
    ensures
        v.len() >= 3,
        v[0] == seq!['s', 'm', 't', 'w', 't', 'f', 's'][number],
        v[1] == seq!['u', 'o', 'u', 'e', 'h', 'r', 'a'][number],
{
    reveal_strlit("monday");
    reveal_strlit("tuesday");
    reveal_strlit("wednesday");
    reveal_strlit("thursday");
    reveal_strlit("friday");
    reveal_strlit("saturday");
    reveal_strlit("sunday");
}

/// A time of day whose hour is not below 24 or whose minute is not below 60 is
/// refused.
pub proof fn law_times_off_the_clock_are_refused(hour: u8, minute: u8)
    requires
        hour < 100,
        minute < 100,
        hour > 23 || minute > 59,
    ensures
        time_of(hhmm(hour, minute)) is Err,
        schedule_of("daily@"@ + hhmm(hour, minute)) is Err,
{
    reveal_strlit(":");
    reveal_strlit("daily@");
    lemma_two_digits(hour);
    lemma_two_digits(minute);
    let s = hhmm(hour, minute);
    lemma_find_is(s, ':', 2);
    assert(s.take(2) =~= two_digits(hour));
    assert(s.skip(3) =~= two_digits(minute));
    lemma_find_is(two_digits(minute), ':', 2);
    assert(split_seq(two_digits(minute), ':') =~= seq![two_digits(minute)]);
    assert(split_seq(s, ':') =~= seq![two_digits(hour), two_digits(minute)]);
    let whole = "daily@"@ + s;
    assert(whole[0] == 'd');
    assert(whole.last() == two_digits(minute)[1]);
    lemma_trim_keeps(whole);
    assert(whole.take(6) =~= "daily@"@);
    assert(whole.skip(6) =~= s);
}

/// Whitespace around a schedule does not matter.
pub proof fn law_whitespace_around_does_not_matter(one: Seq<char>, other: Seq<char>)
    requires
        trim(one) == trim(other),
        schedule_of(one) is Ok,
    ensures
        schedule_of(other) == schedule_of(one),
{
}

/// What is written otherwise than a schedule is none: a time has two parts, a weekly
/// schedule a day and a time, and a schedule is daily or weekly.
pub proof fn law_malformed_schedules_are_refused(
    a: Seq<char>,
    b: Seq<char>,
    c: Seq<char>,
    parts: Seq<Seq<char>>,
    input: Seq<char>,
)
    requires
        forall|i: int| 0 <= i < a.len() ==> a[i] != ':',
        forall|i: int| 0 <= i < b.len() ==> b[i] != ':',
    ensures
        time_of(a) is Err,
        time_of(a + seq![':'] + (b + seq![':'] + c)) is Err,
        parts.len() != 2 ==> weekly_of(parts, input) is Err,
        parts.len() == 2 && day_named(ascii_lower(parts[0])) is None ==> weekly_of(
            parts,
            input,
        ) is Err,
        after_prefix(trim(input), "daily@"@) is None && after_prefix(trim(input), "weekly@"@)
            is None ==> schedule_of(input) is Err,
{
    crate::text::law_cut_at_the_first(a, ':', b + seq![':'] + c);
    crate::text::law_cut_at_the_first(b, ':', c);
    let more = split_seq(c, ':');
    assert(more.len() > 0);
}

/// Where the calendar cannot tell the time there is no next restart; every moment
/// from the epoch on is one.
pub proof fn law_without_a_calendar_nothing_is_due<L, M>(
    schedule: RestartSchedule,
    now: i64,
    local_tm: L,
    mktime: M,
    tm: Option<LocalTime>,
    first: (i64, LocalTime),
    second: (i64, LocalTime),
    r: Option<u64>,
) where L: Fn(i64) -> Option<LocalTime>, M: Fn(LocalTime) -> (i64, LocalTime)
    requires
        computed_from(schedule, now, local_tm, mktime, tm, first, second, r),
    ensures
        tm is None ==> r is None,
        tm is Some && first.0 < 0 ==> r is None,
        tm is Some && 0 <= first.0 <= now && second.0 < 0 ==> r is None,
        now >= 0 ==> counted(now) == Some(now as u64),
        now < 0 ==> counted(now) is None,
{
}

} // verus!
