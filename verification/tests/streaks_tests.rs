use chrono::{Datelike, NaiveDate};
use habit_slot::models::{CalendarColor, Completion};
use habit_slot::streaks::{calendar_color, compute_streak_impl, compute_streak_on};

fn date(y: i32, m: u32, d: u32) -> i32 {
    NaiveDate::from_ymd_opt(y, m, d).unwrap().num_days_from_ce()
}

#[test]
fn empty_completions_returns_zero_streak() {
    let result = compute_streak_impl(&[], date(2026, 5, 7));
    assert_eq!(result.current_streak_days, 0);
    assert_eq!(result.max_streak_days, 0);
    assert!(result.last_completed_date.is_none());
}

#[test]
fn single_completion_today_gives_streak_1() {
    let dates = vec![date(2026, 5, 7)];
    let result = compute_streak_impl(&dates, date(2026, 5, 7));
    assert_eq!(result.current_streak_days, 1);
    assert_eq!(result.max_streak_days, 1);
}

#[test]
fn consecutive_days_count_correctly() {
    let dates = vec![
        date(2026, 5, 3),
        date(2026, 5, 4),
        date(2026, 5, 5),
        date(2026, 5, 6),
        date(2026, 5, 7),
    ];
    let result = compute_streak_impl(&dates, date(2026, 5, 7));
    assert_eq!(result.current_streak_days, 5);
    assert_eq!(result.max_streak_days, 5);
}

#[test]
fn streak_resets_on_gap() {
    let dates = vec![
        date(2026, 5, 1),
        date(2026, 5, 2),
        date(2026, 5, 3),
        date(2026, 5, 6),
        date(2026, 5, 7),
    ];
    let result = compute_streak_impl(&dates, date(2026, 5, 7));
    assert_eq!(result.current_streak_days, 2);
    assert_eq!(result.max_streak_days, 3);
}

#[test]
fn streak_zero_when_last_was_yesterday_but_not_today() {
    let dates = vec![date(2026, 5, 4), date(2026, 5, 5)];
    let result = compute_streak_impl(&dates, date(2026, 5, 7));
    assert_eq!(result.current_streak_days, 0);
}

#[test]
fn max_preserved_across_reset() {
    let dates = vec![
        date(2026, 5, 1),
        date(2026, 5, 2),
        date(2026, 5, 3),
        date(2026, 5, 4),
        date(2026, 5, 9),
        date(2026, 5, 10),
    ];
    let result = compute_streak_impl(&dates, date(2026, 5, 10));
    assert_eq!(result.current_streak_days, 2);
    assert_eq!(result.max_streak_days, 4);
}

#[test]
fn duplicate_dates_handled() {
    let dates = vec![date(2026, 5, 7), date(2026, 5, 7)];
    let result = compute_streak_impl(&dates, date(2026, 5, 7));
    assert_eq!(result.current_streak_days, 1);
    assert_eq!(result.max_streak_days, 1);
}

#[test]
fn calendar_color_mapping() {
    let dates = vec![date(2026, 5, 7)];
    let result = compute_streak_impl(&dates, date(2026, 5, 7));
    assert_eq!(result.current_streak_days, 1);

    let color = if result.current_streak_days == 0 {
        CalendarColor::Empty
    } else if result.current_streak_days <= 3 {
        CalendarColor::Low
    } else if result.current_streak_days <= 9 {
        CalendarColor::Mid
    } else {
        CalendarColor::High
    };
    assert_eq!(color, CalendarColor::Low);

    assert!(!CalendarColor::Empty.hex().is_empty());
    assert!(!CalendarColor::Low.hex().is_empty());
    assert!(!CalendarColor::Mid.hex().is_empty());
    assert!(!CalendarColor::High.hex().is_empty());
}

#[test]
fn streak_through_yesterday_still_counts() {
    let dates = vec![date(2026, 2, 27), date(2026, 2, 28)];
    let result = compute_streak_impl(&dates, date(2026, 3, 1));
    assert_eq!(result.current_streak_days, 2);
    assert_eq!(result.max_streak_days, 2);
    assert_eq!(result.last_completed_date, Some(date(2026, 2, 28)));
}

#[test]
fn unordered_log_gives_same_streak() {
    let a = vec![date(2026, 5, 5), date(2026, 5, 7), date(2026, 5, 6), date(2026, 5, 1)];
    let b = vec![date(2026, 5, 1), date(2026, 5, 5), date(2026, 5, 6), date(2026, 5, 7), date(2026, 5, 6)];
    let ra = compute_streak_impl(&a, date(2026, 5, 7));
    let rb = compute_streak_impl(&b, date(2026, 5, 7));
    assert_eq!(ra, rb);
    assert_eq!(ra.current_streak_days, 3);
    assert_eq!(ra.max_streak_days, 3);
}

#[test]
fn compute_streak_on_filters_by_habit() {
    let today = date(2026, 5, 7);
    let log = vec![
        Completion { habit_id: 1, date: today - 1, count: 2 },
        Completion { habit_id: 2, date: today - 2, count: 1 },
        Completion { habit_id: 1, date: today, count: 1 },
        Completion { habit_id: 2, date: today, count: 1 },
    ];
    let r1 = compute_streak_on(1, &log, today);
    assert_eq!(r1.current_streak_days, 2);
    let r2 = compute_streak_on(2, &log, today);
    assert_eq!(r2.current_streak_days, 1);
    assert_eq!(r2.max_streak_days, 1);
    let r3 = compute_streak_on(3, &log, today);
    assert_eq!(r3.last_completed_date, None);
}

#[test]
fn calendar_color_grows_with_run_length() {
    let end = date(2026, 5, 20);
    let mut log = Vec::new();
    // The colour follows the run of completed days ending at the cell's date.
    for k in 0..12 {
        log.push(Completion { habit_id: 9, date: end - k, count: 1 });
    }
    assert_eq!(calendar_color(end, &log, 9), CalendarColor::High);
    assert_eq!(calendar_color(end - 8, &log, 9), CalendarColor::Mid);
    assert_eq!(calendar_color(end - 10, &log, 9), CalendarColor::Low);
    assert_eq!(calendar_color(end - 11, &log, 9), CalendarColor::Low);
    assert_eq!(calendar_color(end + 1, &log, 9), CalendarColor::Empty);
    assert_eq!(calendar_color(end, &log, 8), CalendarColor::Empty);
    assert_eq!(calendar_color(end - 4, &log, 9), CalendarColor::Mid);
}

#[test]
fn calendar_color_ignores_log_order() {
    let d = date(2026, 5, 7);
    let ascending: Vec<Completion> = (0..4)
        .map(|k| Completion { habit_id: 0, date: d - 3 + k, count: 1 })
        .collect();
    assert_eq!(calendar_color(d, &ascending, 0), CalendarColor::Mid);
    let mut shuffled = ascending.clone();
    shuffled.swap(0, 2);
    shuffled.push(Completion { habit_id: 5, date: d - 4, count: 1 });
    shuffled.push(Completion { habit_id: 0, date: d + 1, count: 1 });
    assert_eq!(calendar_color(d, &shuffled, 0), CalendarColor::Mid);
    assert_eq!(calendar_color(d - 1, &shuffled, 0), CalendarColor::Low);
    assert_eq!(calendar_color(d + 1, &shuffled, 0), CalendarColor::Mid);
}

#[test]
fn heatmap_colour_is_length_of_run_in_any_order() {
    let end = date(2026, 7, 10);
    // A run of 5 days ending at `end`, logged out of order with a duplicate,
    // another habit's entries and a later day that does not join the run.
    let log = vec![
        Completion { habit_id: 4, date: end - 2, count: 1 },
        Completion { habit_id: 4, date: end, count: 1 },
        Completion { habit_id: 5, date: end - 5, count: 1 },
        Completion { habit_id: 4, date: end - 4, count: 1 },
        Completion { habit_id: 4, date: end + 2, count: 1 },
        Completion { habit_id: 4, date: end - 1, count: 1 },
        Completion { habit_id: 4, date: end - 3, count: 1 },
        Completion { habit_id: 4, date: end - 1, count: 2 },
    ];
    assert_eq!(calendar_color(end, &log, 4), CalendarColor::Mid);
    assert_eq!(calendar_color(end - 2, &log, 4), CalendarColor::Low);
    assert_eq!(calendar_color(end + 1, &log, 4), CalendarColor::Empty);
    assert_eq!(calendar_color(end + 2, &log, 4), CalendarColor::Low);
    let mut reversed = log.clone();
    reversed.reverse();
    assert_eq!(calendar_color(end, &reversed, 4), CalendarColor::Mid);
}
