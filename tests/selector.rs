use chrono::{Duration, Local, Months, NaiveDate, NaiveDateTime, TimeZone};
use ttyui::calendar::{month_length, Timestamp};
use ttyui::key::Key;
use ttyui::selector::{
    answer, pick_step, DateError, DateSelector, DateTimeField, Pick, ASK_AGAIN,
};

fn naive(t: Timestamp) -> NaiveDateTime {
    NaiveDate::from_ymd_opt(t.year, t.month, t.day)
        .unwrap()
        .and_hms_opt(t.hour, t.minute, t.second)
        .unwrap()
}

/// The instant of a timestamp, as a UTC wall clock.
fn instant(t: Timestamp) -> NaiveDateTime {
    naive(t) - Duration::seconds(t.offset as i64)
}

/// A local time at this wall clock, with the local time zone's offset there.
fn stamp(y: i32, mo: u32, d: u32, h: u32, mi: u32, s: u32) -> Timestamp {
    let n = NaiveDate::from_ymd_opt(y, mo, d)
        .unwrap()
        .and_hms_opt(h, mi, s)
        .unwrap();
    let offset = match Local.from_local_datetime(&n).single() {
        Some(l) => l.offset().local_minus_utc(),
        None => 0,
    };
    Timestamp::new(y, mo, d, h, mi, s, offset).unwrap()
}

/// A timestamp at this wall clock and offset.
fn stamp_at(y: i32, mo: u32, d: u32, h: u32, mi: u32, s: u32, offset: i32) -> Timestamp {
    Timestamp::new(y, mo, d, h, mi, s, offset).unwrap()
}

fn date_init() -> (DateSelector, DateSelector) {
    let o = DateSelector::new();
    (o.clone(), o)
}

fn datetime_init() -> (DateSelector, DateSelector) {
    let mut o = DateSelector::new();
    o.set_has_time(true);
    (o.clone(), o)
}

#[test]
fn date_up_increments_day_by_default() {
    let (mut t, s) = date_init();
    t.up().unwrap();
    assert_eq!(naive(t.get_date()), naive(s.get_date()) + Duration::days(1))
}

#[test]
fn date_down_decrements_day_by_default() {
    let (mut t, s) = date_init();
    t.down().unwrap();
    assert_eq!(naive(t.get_date()), naive(s.get_date()) - Duration::days(1))
}

#[test]
fn date_left_down2_decrements_months() {
    let (mut t, s) = date_init();
    t.left();
    t.down().unwrap();
    t.down().unwrap();
    assert_eq!(naive(t.get_date()), naive(s.get_date()) - Months::new(2))
}

#[test]
fn date_left_up_down_results_same_date() {
    let (mut t, s) = date_init();
    t.left();
    t.up().unwrap();
    t.down().unwrap();
    assert_eq!(t.get_date(), s.get_date())
}

#[test]
fn date_left2_down_decrements_year() {
    let (mut t, s) = date_init();
    t.left();
    t.left();
    t.down().unwrap();
    assert_eq!(naive(t.get_date()), naive(s.get_date()) - Months::new(12))
}

#[test]
fn date_left3_down_decrements_day() {
    let (mut t, s) = date_init();
    t.left();
    t.left();
    t.left();
    t.down().unwrap();
    assert_eq!(t.active_field(), s.active_field());
    assert_eq!(naive(t.get_date()), naive(s.get_date()) - Duration::days(1));
}

#[test]
fn datetime_left3_down_decrements_second() {
    let (mut t, s) = datetime_init();
    t.left();
    t.left();
    t.left();
    t.down().unwrap();
    assert_eq!(instant(t.get_date()), instant(s.get_date()) - Duration::seconds(1))
}

#[test]
fn date_right_left_up_increments_day() {
    let (mut t, s) = date_init();
    t.right();
    t.left();
    t.up().unwrap();
    assert_eq!(naive(t.get_date()), naive(s.get_date()) + Duration::days(1))
}

#[test]
fn datetime_right_left_up_increments_day() {
    let (mut t, s) = datetime_init();
    t.right();
    t.left();
    t.up().unwrap();
    assert_eq!(naive(t.get_date()), naive(s.get_date()) + Duration::days(1))
}

#[test]
fn date_right_up_increments_year() {
    let (mut t, s) = date_init();
    t.right();
    t.up().unwrap();
    assert_eq!(naive(t.get_date()), naive(s.get_date()) + Months::new(12))
}

#[test]
fn datetime_right_up_increments_hour() {
    let (mut t, s) = datetime_init();
    t.right();
    t.up().unwrap();
    assert_eq!(instant(t.get_date()), instant(s.get_date()) + Duration::hours(1))
}

#[test]
fn datetime_right2_down2_decrements_minutes() {
    let (mut t, s) = datetime_init();
    t.right();
    t.right();
    t.down().unwrap();
    t.down().unwrap();
    assert_eq!(instant(t.get_date()), instant(s.get_date()) - Duration::minutes(2))
}

#[test]
fn datetime_right3_up_increments_second() {
    let (mut t, s) = datetime_init();
    t.right();
    t.right();
    t.right();
    t.up().unwrap();
    assert_eq!(instant(t.get_date()), instant(s.get_date()) + Duration::seconds(1))
}

#[test]
fn datetime_right4_down_decrements_year() {
    let (mut t, s) = datetime_init();
    t.right();
    t.right();
    t.right();
    t.right();
    t.down().unwrap();
    assert_eq!(naive(t.get_date()), naive(s.get_date()) - Months::new(12))
}

#[test]
fn test_date_set_date() {
    let (mut t, s) = date_init();
    let other = if s.get_date().year == 2000 {
        stamp_at(2001, 1, 1, 0, 0, 0, 0)
    } else {
        stamp_at(2000, 1, 1, 0, 0, 0, 0)
    };
    t.set_date(other);
    assert_ne!(t.get_date(), s.get_date())
}

#[test]
fn field_ring_wraps_both_ways() {
    let mut f = DateTimeField::Year;
    assert_eq!(f.switch_prev(), DateTimeField::Second);
    let mut g = DateTimeField::Second;
    assert_eq!(g.switch_next(), DateTimeField::Year);
    let mut d = DateTimeField::Day;
    assert_eq!(d.switch_next(), DateTimeField::Hour);
    assert_eq!(d.switch_prev(), DateTimeField::Month);
}

#[test]
fn date_only_left_three_times_returns_to_day_and_down_goes_back_one_day() {
    let mut t = DateSelector::from(stamp(2024, 3, 1, 10, 0, 0));
    t.left();
    assert_eq!(t.active_field(), DateTimeField::Month);
    t.left();
    assert_eq!(t.active_field(), DateTimeField::Year);
    t.left();
    assert_eq!(t.active_field(), DateTimeField::Day);
    t.down().unwrap();
    assert_eq!(t.get_date(), stamp(2024, 2, 29, 10, 0, 0));
}

#[test]
fn date_only_right_from_day_wraps_to_year() {
    let mut t = DateSelector::from(stamp(2024, 3, 1, 10, 0, 0));
    t.right();
    assert_eq!(t.active_field(), DateTimeField::Year);
}

#[test]
fn up_then_down_is_a_no_op_on_every_field() {
    for has_time in [false, true] {
        for moves in 0..6 {
            let start = stamp(2023, 12, 31, 23, 59, 59);
            let mut t = DateSelector::from(start);
            t.set_has_time(has_time);
            for _ in 0..moves {
                t.right();
            }
            t.up().unwrap();
            t.down().unwrap();
            assert_eq!(t.get_date(), start);
        }
    }
}

#[test]
fn year_step_uses_calendar_months_across_leap_years() {
    let mut t = DateSelector::from(stamp(2023, 3, 1, 0, 0, 0));
    t.right();
    assert_eq!(t.active_field(), DateTimeField::Year);
    t.up().unwrap();
    assert_eq!(t.get_date(), stamp(2024, 3, 1, 0, 0, 0));
    let mut u = DateSelector::from(stamp(2024, 2, 29, 0, 0, 0));
    u.right();
    u.up().unwrap();
    assert_eq!(u.get_date(), stamp(2025, 2, 28, 0, 0, 0));
    let mut v = DateSelector::from(stamp(2024, 2, 29, 0, 0, 0));
    v.right();
    v.down().unwrap();
    assert_eq!(v.get_date(), stamp(2023, 2, 28, 0, 0, 0));
}

#[test]
fn month_step_clamps_to_the_end_of_the_month() {
    let mut t = DateSelector::from(stamp(2023, 1, 31, 0, 0, 0));
    t.left();
    t.up().unwrap();
    assert_eq!(t.get_date(), stamp(2023, 2, 28, 0, 0, 0));
    t.down().unwrap();
    assert_eq!(t.get_date(), stamp(2023, 1, 28, 0, 0, 0));
}

#[test]
fn time_steps_cross_midnight() {
    let start = stamp(2023, 12, 31, 23, 30, 0);
    let mut t = DateSelector::from(start);
    t.set_has_time(true);
    t.right();
    assert_eq!(t.active_field(), DateTimeField::Hour);
    t.up().unwrap();
    assert_eq!(instant(t.get_date()), instant(start) + Duration::hours(1));
    t.down().unwrap();
    t.down().unwrap();
    assert_eq!(instant(t.get_date()), instant(start) - Duration::hours(1));
}

#[test]
fn time_steps_move_the_instant_and_take_the_local_offset() {
    let start = stamp_at(2023, 6, 1, 12, 0, 0, 5 * 3600);
    let mut t = DateSelector::from(start);
    t.set_has_time(true);
    t.left();
    t.left();
    t.left();
    assert_eq!(t.active_field(), DateTimeField::Second);
    t.up().unwrap();
    let d = t.get_date();
    assert_eq!(instant(d), instant(start) + Duration::seconds(1));
    let local = Local.from_utc_datetime(&instant(d));
    assert_eq!(d.offset, local.offset().local_minus_utc());
    assert_eq!(naive(d), local.naive_local());
}

#[test]
fn date_steps_keep_the_wall_clock_and_take_the_local_offset() {
    let start = stamp_at(2023, 6, 1, 12, 0, 0, 5 * 3600);
    let mut t = DateSelector::from(start);
    t.up().unwrap();
    let d = t.get_date();
    assert_eq!(naive(d), naive(start) + Duration::days(1));
    let local = Local.from_local_datetime(&naive(d)).single().unwrap();
    assert_eq!(d.offset, local.offset().local_minus_utc());
}

#[test]
fn hidden_time_field_falls_back_to_day() {
    let mut t = DateSelector::from(stamp(2023, 5, 5, 1, 2, 3));
    t.set_has_time(true);
    t.right();
    t.right();
    assert_eq!(t.active_field(), DateTimeField::Minute);
    t.set_has_time(false);
    t.up().unwrap();
    assert_eq!(t.active_field(), DateTimeField::Day);
    assert_eq!(t.get_date(), stamp(2023, 5, 5, 1, 2, 3));
}

#[test]
fn step_past_the_last_date_is_an_error() {
    let last = stamp_at(262142, 12, 31, 23, 59, 59, 0);
    let mut t = DateSelector::from(last);
    assert_eq!(t.up(), Err(DateError::OutOfRange));
    assert_eq!(t.get_date(), last);
    t.set_has_time(true);
    t.right();
    t.right();
    t.right();
    assert_eq!(t.active_field(), DateTimeField::Second);
    assert_eq!(t.up(), Err(DateError::OutOfRange));
    t.down().unwrap();
    assert_eq!(instant(t.get_date()), instant(last) - Duration::seconds(1));
}

#[test]
fn step_before_the_first_date_is_an_error() {
    let first = stamp_at(-262143, 1, 1, 0, 0, 0, 0);
    let mut t = DateSelector::from(first);
    assert_eq!(t.down(), Err(DateError::OutOfRange));
    t.left();
    assert_eq!(t.down(), Err(DateError::OutOfRange));
    assert_eq!(t.get_date(), first);
}

#[test]
fn selector_text_and_columns() {
    let mut t = DateSelector::from(stamp_at(2024, 2, 9, 7, 5, 3, 3600));
    assert_eq!(t.to_string(), "2024-02-09");
    assert_eq!(t.column(), 9);
    t.set_has_time(true);
    assert_eq!(t.to_string(), "2024-02-09 07:05:03");
    t.left();
    assert_eq!(t.column(), 6);
    t.left();
    assert_eq!(t.column(), 3);
    t.left();
    assert_eq!(t.column(), 18);
    assert_eq!(t.name(), "due date");
    t.set_name("deadline");
    assert_eq!(t.name(), "deadline");
    assert!(t.has_time());
}

#[test]
fn selector_keys() {
    let mut t = DateSelector::from(stamp(2024, 2, 9, 0, 0, 0));
    assert_eq!(t.press(Key::ArrowUp), Ok(false));
    assert_eq!(t.get_date(), stamp(2024, 2, 10, 0, 0, 0));
    assert_eq!(t.press(Key::ArrowLeft), Ok(false));
    assert_eq!(t.press(Key::ArrowDown), Ok(false));
    assert_eq!(t.get_date(), stamp(2024, 1, 10, 0, 0, 0));
    assert_eq!(t.press(Key::ArrowRight), Ok(false));
    assert_eq!(t.active_field(), DateTimeField::Day);
    assert_eq!(t.press(Key::Char('x')), Ok(false));
    assert_eq!(t.press(Key::Enter), Ok(true));
    assert_eq!(t.get_date(), stamp(2024, 1, 10, 0, 0, 0));
}

#[test]
fn timestamps_are_checked() {
    assert!(Timestamp::new(2023, 2, 29, 0, 0, 0, 0).is_none());
    assert!(Timestamp::new(2024, 2, 29, 0, 0, 0, 0).is_some());
    assert!(Timestamp::new(2024, 13, 1, 0, 0, 0, 0).is_none());
    assert!(Timestamp::new(2024, 1, 1, 24, 0, 0, 0).is_none());
    assert!(Timestamp::new(262143, 1, 1, 0, 0, 0, 0).is_none());
    assert!(Timestamp::new(2024, 1, 1, 0, 0, 0, 86400).is_none());
    assert!(Timestamp::new(2024, 1, 1, 0, 0, 0, -86399).is_some());
    assert_eq!(month_length(1900, 2), 28);
    assert_eq!(month_length(2000, 2), 29);
    assert_eq!(month_length(2023, 4), 30);
}

#[test]
fn yes_and_no_answers() {
    assert_eq!(answer(Key::Char('y')), Some(true));
    assert_eq!(answer(Key::Char('Y')), Some(true));
    assert_eq!(answer(Key::Char('n')), Some(false));
    assert_eq!(answer(Key::Char('N')), Some(false));
    assert_eq!(answer(Key::Char('x')), None);
    assert_eq!(answer(Key::Enter), None);
    assert_eq!(ASK_AGAIN, "Answer with y or n: ");
}

#[test]
fn list_picker_wraps_and_ends() {
    assert_eq!(pick_step(0, 3, Key::ArrowUp), Pick::Moved(2));
    assert_eq!(pick_step(0, 3, Key::Char('k')), Pick::Moved(2));
    assert_eq!(pick_step(2, 3, Key::ArrowDown), Pick::Moved(0));
    assert_eq!(pick_step(1, 3, Key::Char('j')), Pick::Moved(2));
    assert_eq!(pick_step(1, 3, Key::Enter), Pick::Chosen(1));
    assert_eq!(pick_step(1, 3, Key::Char('q')), Pick::Cancelled);
    assert_eq!(pick_step(1, 3, Key::Char('Q')), Pick::Cancelled);
    assert_eq!(pick_step(1, 3, Key::Escape), Pick::Cancelled);
    assert_eq!(pick_step(1, 3, Key::Char('z')), Pick::Moved(1));
}
