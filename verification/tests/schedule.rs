use pym2::schedule::{
    mktime_local, next_occurrence, parse_hhmm, parse_restart_schedule, LocalTime, RestartSchedule,
    Weekday,
};

const DAY: i64 = 86_400;

/// A calendar of days counted from a Sunday, in a place without summer time.
fn local_tm(t: i64) -> Option<LocalTime> {
    if t < 0 {
        return None;
    }
    let day = t / DAY;
    Some(LocalTime {
        sec: (t % 60) as i32,
        min: (t / 60 % 60) as i32,
        hour: (t / 3600 % 24) as i32,
        mday: (day % 28) as i32 + 1,
        mon: (day / 28) as i32,
        year: 0,
        wday: (day % 7) as i32,
        yday: 0,
        isdst: 0,
    })
}

fn mktime(tm: LocalTime) -> (i64, LocalTime) {
    let day = (tm.mday - 1) as i64 + 28 * tm.mon as i64;
    let t = day * DAY + tm.hour as i64 * 3600 + tm.min as i64 * 60 + tm.sec as i64;
    (t, local_tm(t).unwrap_or(tm))
}

fn parsed(text: &str) -> RestartSchedule {
    parse_restart_schedule(text).unwrap_or_else(|e| panic!("{}", e.to_string()))
}

fn refused(text: &str) -> String {
    match parse_restart_schedule(text) {
        Err(e) => e.to_string(),
        Ok(_) => panic!("{}", text),
    }
}

#[test]
fn schedules_are_read() {
    assert!(matches!(
        parsed(" daily@03:05 "),
        RestartSchedule::Daily { hour: 3, minute: 5 }
    ));
    assert!(matches!(
        parsed("weekly@SUNday  23:59"),
        RestartSchedule::Weekly {
            weekday: Weekday::Sun,
            hour: 23,
            minute: 59
        }
    ));
    assert_eq!(parse_hhmm("0:0").unwrap(), (0, 0));
    assert_eq!(parse_hhmm("+7:08").unwrap(), (7, 8));
}

#[test]
fn schedules_are_refused() {
    assert_eq!(
        refused("hourly"),
        "config error: unsupported restart_schedule 'hourly'; use daily@HH:MM or weekly@sun HH:MM"
    );
    assert_eq!(refused("daily@3"), "config error: invalid time '3': expected HH:MM");
    assert_eq!(refused("daily@1:2:3"), "config error: invalid time '1:2:3': expected HH:MM");
    assert_eq!(refused("daily@x:1"), "config error: invalid hour 'x'");
    assert_eq!(refused("daily@1:"), "config error: invalid minute ''");
    assert_eq!(
        refused("daily@24:00"),
        "config error: invalid time '24:00': hour must be 0..23 and minute 0..59"
    );
    assert_eq!(
        refused("weekly@"),
        "config error: invalid weekly schedule 'weekly@': missing day"
    );
    assert_eq!(
        refused("weekly@sun"),
        "config error: invalid weekly schedule 'weekly@sun': missing time"
    );
    assert_eq!(
        refused("weekly@sun 03:00 x"),
        "config error: invalid weekly schedule 'weekly@sun 03:00 x': expected format weekly@sun 03:00"
    );
    assert_eq!(
        refused("weekly@day 03:00"),
        "config error: invalid weekday 'day' in schedule 'weekly@day 03:00'; use mon..sun"
    );
}

#[test]
fn the_next_day_at_that_time() {
    let daily = parsed("daily@03:00");
    let three = 3 * 3600;
    assert_eq!(next_occurrence(daily, 0, local_tm, mktime), Some(three));
    assert_eq!(next_occurrence(daily, three - 1, local_tm, mktime), Some(three));
    assert_eq!(
        next_occurrence(daily, three, local_tm, mktime),
        Some(three + DAY as u64)
    );
}

#[test]
fn the_next_week_on_that_day() {
    let weekly = parsed("weekly@tue 12:30");
    let due = (2 * DAY + 12 * 3600 + 30 * 60) as u64;
    let week = 7 * DAY as u64;
    assert_eq!(next_occurrence(weekly, 0, local_tm, mktime), Some(due));
    assert_eq!(next_occurrence(weekly, due, local_tm, mktime), Some(due + week));
    assert_eq!(
        next_occurrence(weekly, (3 * DAY) as u64, local_tm, mktime),
        Some(due + week)
    );
}

#[test]
fn times_that_there_are_not() {
    let daily = parsed("daily@03:00");
    assert_eq!(next_occurrence(daily, u64::MAX, local_tm, mktime), None);
    assert_eq!(next_occurrence(daily, 5, local_tm, |tm| (-1, tm)), None);
    assert_eq!(mktime_local(-1), None);
    assert_eq!(mktime_local(4), Some(4));
}

#[test]
fn days_of_the_week() {
    let days = ["sun", "mon", "tue", "wed", "thu", "fri", "sat"];
    for (number, day) in days.iter().enumerate() {
        let found = Weekday::from_str(&day.to_uppercase()).expect("day");
        assert_eq!(found.to_tm_wday(), number as i32);
    }
    assert!(Weekday::from_str("x").is_none());
}
