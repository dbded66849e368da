//! Streak calculation: consecutive-day counting with a hard reset on a
//! missed day, the longest streak ever, and calendar heatmap colours.
//!
//! Dates are day numbers; two dates are consecutive when their numbers
//! differ by one.

use vstd::prelude::*;
use crate::clock;
use crate::models::{CalendarColor, Completion, StreakData};

verus! {

// ---------------------------------------------------------------------
// Specification
// ---------------------------------------------------------------------

/// The set of days that occur in `days`.
pub open spec fn day_set(days: Seq<i32>) -> Set<int> {
    Set::new(|d: int| exists|i: int| 0 <= i < days.len() && days[i] == d)
}

/// Every one of the `len` days ending at `end` is in `s`.
pub open spec fn run_through(s: Set<int>, end: int, len: int) -> bool {
    forall|x: int| end - len < x <= end ==> #[trigger] s.contains(x)
}

/// The run of consecutive days of `s` that ends at `end` has exactly `len`
/// days (zero when `end` itself is not in `s`).
pub open spec fn run_exactly(s: Set<int>, end: int, len: int) -> bool {
    len >= 0 && run_through(s, end, len) && !s.contains(end - len)
}

/// No run of `s` ending at `end` is longer than `len`.
pub open spec fn run_bounded(s: Set<int>, end: int, len: int) -> bool {
    forall|k: int| #[trigger] run_through(s, end, k) ==> k <= len
}

/// `len` is the length of the longest run of consecutive days in `s`.
pub open spec fn longest_run(s: Set<int>, len: int) -> bool {
    &&& exists|d: int| #[trigger] run_through(s, d, len)
    &&& forall|d: int| #[trigger] run_bounded(s, d, len)
}

/// `m` is the latest day of `s`.
pub open spec fn is_latest(s: Set<int>, m: int) -> bool {
    s.contains(m) && forall|x: int| #[trigger] s.contains(x) ==> x <= m
}

/// `r` is the streak data of the completion days `days` as seen on `today`:
/// the latest day, the current streak (the run ending today when the
/// latest day is today, the run ending yesterday when the latest day is
/// yesterday, zero otherwise) and the longest run.
pub open spec fn streak_matches(days: Seq<i32>, today: int, r: StreakData) -> bool {
    let s = day_set(days);
    if days.len() == 0 {
        r.current_streak_days == 0 && r.max_streak_days == 0 && r.last_completed_date is None
    } else {
        &&& r.last_completed_date matches Some(m) && is_latest(s, m as int)
        &&& longest_run(s, r.max_streak_days as int)
        &&& {
            let m = r.last_completed_date->0 as int;
            if m == today {
                run_exactly(s, today, r.current_streak_days as int)
            } else if m == today - 1 {
                run_exactly(s, today - 1, r.current_streak_days as int)
            } else {
                r.current_streak_days == 0
            }
        }
    }
}

/// The days on which habit `id` was completed, in log order.
pub open spec fn habit_days(cs: Seq<Completion>, id: u128) -> Seq<i32> {
    cs.filter(|c: Completion| c.habit_id == id).map_values(|c: Completion| c.date)
}

/// Strictly increasing.
pub open spec fn strictly_increasing(s: Seq<i32>) -> bool {
    forall|a: int, b: int| 0 <= a < b < s.len() ==> s[a] < s[b]
}

// ---------------------------------------------------------------------
// Executable
// ---------------------------------------------------------------------

proof fn lemma_day_set_insert(s: Seq<i32>, pos: int, d: i32)
    requires
        0 <= pos <= s.len(),
    ensures
        day_set(s.insert(pos, d)) == day_set(s).insert(d as int),
{
    let t = s.insert(pos, d);
    assert forall|x: int| day_set(t).contains(x) <==> day_set(s).insert(d as int).contains(x) by {
        if day_set(t).contains(x) {
            let i = choose|i: int| 0 <= i < t.len() && t[i] == x;
            if i < pos {
                assert(s[i] == x);
            } else if i > pos {
                assert(s[i - 1] == x);
            }
        }
        if day_set(s).contains(x) {
            let i = choose|i: int| 0 <= i < s.len() && s[i] == x;
            if i < pos {
                assert(t[i] == x);
            } else {
                assert(t[i + 1] == x);
            }
        }
        if x == d {
            assert(t[pos] == x);
        }
    }
    assert(day_set(t) =~= day_set(s).insert(d as int));
}

/// The distinct days of `dates` in increasing order.
pub fn sorted_unique_days(dates: &[i32]) -> (sorted: Vec<i32>)
    ensures
        strictly_increasing(sorted@),
        day_set(sorted@) == day_set(dates@),
        sorted@.len() <= dates@.len(),
{
    let mut sorted: Vec<i32> = Vec::new();
    let mut n: usize = 0;
    assert(day_set(sorted@) =~= day_set(dates@.take(0)));
    while n < dates.len()
        invariant
            0 <= n <= dates@.len(),
            strictly_increasing(sorted@),
            sorted@.len() <= n,
            day_set(sorted@) == day_set(dates@.take(n as int)),
        decreases dates@.len() - n,
    {
        let d = dates[n];
        let mut pos: usize = 0;
        while pos < sorted.len() && sorted[pos] < d
            invariant
                0 <= pos <= sorted@.len(),
                forall|j: int| 0 <= j < pos ==> sorted@[j] < d,
            decreases sorted@.len() - pos,
        {
            pos = pos + 1;
        }
        let ghost before = sorted@;
        proof {
            assert(dates@.take(n + 1) == dates@.take(n as int).insert(n as int, d));
            lemma_day_set_insert(dates@.take(n as int), n as int, d);
        }
        if pos < sorted.len() && sorted[pos] == d {
            assert(day_set(sorted@).contains(d as int));
            assert(day_set(sorted@) =~= day_set(sorted@).insert(d as int));
        } else {
            sorted.insert(pos, d);
            assert(sorted@ == before.insert(pos as int, d));
            proof {
                lemma_day_set_insert(before, pos as int, d);
            }
            assert forall|a: int, b: int| 0 <= a < b < sorted@.len() implies sorted@[a] < sorted@[b] by {
                if b < pos {
                } else if b == pos {
                    assert(sorted@[a] == before[a]);
                } else if a < pos {
                    assert(sorted@[b] == before[b - 1]);
                    assert(before[a] < d);
                    if b - 1 > pos {
                        assert(before[pos as int] < before[b - 1]);
                    }
                } else if a == pos {
                    assert(sorted@[b] == before[b - 1]);
                    if b - 1 > pos {
                        assert(before[pos as int] < before[b - 1]);
                    }
                } else {
                    assert(sorted@[a] == before[a - 1]);
                    assert(sorted@[b] == before[b - 1]);
                }
            }
        }
        n = n + 1;
    }
    assert(dates@.take(dates@.len() as int) == dates@);
    sorted
}

/// In an increasing sequence no element lies strictly between two
/// neighbours.
proof fn lemma_nothing_between(sorted: Seq<i32>, i: int, x: int)
    requires
        strictly_increasing(sorted),
        1 <= i < sorted.len(),
        sorted[i - 1] < x < sorted[i],
    ensures
        !day_set(sorted).contains(x),
{
    if day_set(sorted).contains(x) {
        let j = choose|j: int| 0 <= j < sorted.len() && sorted[j] == x;
        if j < i - 1 {
            assert(sorted[j] < sorted[i - 1]);
        } else if j > i {
            assert(sorted[i] < sorted[j]);
        }
    }
}

/// Count consecutive days backward from `start` in sorted unique dates.
fn count_consecutive_from_end(sorted: &Vec<i32>, start: i64) -> (count: u32)
    requires
        strictly_increasing(sorted@),
        sorted@.len() <= u32::MAX,
    ensures
        run_exactly(day_set(sorted@), start as int, count as int),
{
    let ghost s = day_set(sorted@);
    let mut count: u32 = 0;
    let mut current: i64 = start;
    let mut i: usize = sorted.len();
    let mut stop = false;
    while i > 0 && !stop
        invariant
            0 <= i <= sorted@.len(),
            sorted@.len() <= u32::MAX,
            strictly_increasing(sorted@),
            s == day_set(sorted@),
            count as int <= sorted@.len() - i,
            current == start - count,
            run_through(s, start as int, count as int),
            forall|j: int| i <= j < sorted@.len() ==> sorted@[j] > current,
            stop ==> i > 0 && sorted@[i - 1] < current,
        decreases i, (if stop { 0int } else { 1int }),
    {
        let v = sorted[i - 1] as i64;
        if v == current {
            proof {
                assert(s.contains(v as int));
                assert forall|x: int| start - (count + 1) < x <= start implies #[trigger] s.contains(x) by {
                    if x == current as int {
                        assert(s.contains(v as int));
                    }
                }
            }
            count = count + 1;
            current = current - 1;
            i = i - 1;
        } else if v < current {
            stop = true;
        } else {
            i = i - 1;
        }
    }
    proof {
        if s.contains(current as int) {
            let j = choose|j: int| 0 <= j < sorted@.len() && sorted@[j] == current as int;
            if j < i {
                if j < i - 1 {
                    assert(sorted@[j] < sorted@[i - 1]);
                }
            }
        }
    }
    count
}

/// Find the longest consecutive day sequence.
fn find_max_consecutive(sorted: &Vec<i32>) -> (max_run: u32)
    requires
        strictly_increasing(sorted@),
        sorted@.len() <= u32::MAX,
    ensures
        longest_run(day_set(sorted@), max_run as int),
{
    let ghost s = day_set(sorted@);
    if sorted.len() == 0 {
        assert(run_through(s, 0, 0));
        assert forall|d: int| #[trigger] run_bounded(s, d, 0) by {
            assert forall|k: int| #[trigger] run_through(s, d, k) implies k <= 0 by {
                if k > 0 {
                    assert(s.contains(d));
                }
            }
        }
        return 0;
    }

    let mut max_run: u32 = 1;
    let mut current_run: u32 = 1;
    let ghost mut best_end: int = sorted@[0] as int;

    proof {
        assert(s.contains(sorted@[0] as int));
        assert(run_through(s, sorted@[0] as int, 1));
        let first = sorted@[0] as int;
        if s.contains(first - 1) {
            let j = choose|j: int| 0 <= j < sorted@.len() && #[trigger] sorted@[j] == first - 1;
            if j > 0 {
                assert(sorted@[0] < sorted@[j]);
            }
        }
        assert forall|k: int| #[trigger] run_through(s, sorted@[0] as int, k) implies k <= 1 by {
            if k > 1 {
                assert(s.contains(sorted@[0] - 1));
            }
        }
    }

    let mut i: usize = 1;
    while i < sorted.len()
        invariant
            1 <= i <= sorted@.len(),
            sorted@.len() <= u32::MAX,
            strictly_increasing(sorted@),
            s == day_set(sorted@),
            1 <= current_run <= max_run <= i,
            run_exactly(s, sorted@[i - 1] as int, current_run as int),
            run_through(s, best_end, max_run as int),
            forall|j: int| 0 <= j < i ==> #[trigger] run_bounded(s, sorted@[j] as int, max_run as int),
        decreases sorted@.len() - i,
    {
        let diff = sorted[i] as i64 - sorted[i - 1] as i64;
        let ghost old_max = max_run as int;
        let ghost prev = sorted@[i - 1] as int;
        let ghost cur = sorted@[i as int] as int;
        assert(sorted@[i - 1] < sorted@[i as int]);
        assert(s.contains(cur));
        if diff == 1 {
            proof {
                assert forall|x: int| cur - (current_run + 1) < x <= cur implies #[trigger] s.contains(x) by {
                    if x < cur {
                        assert(prev - current_run < x <= prev);
                    }
                }
            }
            current_run = current_run + 1;
            if current_run > max_run {
                max_run = current_run;
                proof {
                    best_end = cur;
                }
            }
        } else if diff == 0 {
            assert(false);
            i = i + 1;
            continue;
        } else {
            proof {
                lemma_nothing_between(sorted@, i as int, cur - 1);
                assert(run_through(s, cur, 1));
            }
            current_run = 1;
        }
        proof {
            assert(run_exactly(s, cur, current_run as int));
            assert forall|j: int| 0 <= j < i + 1 implies #[trigger] run_bounded(s, sorted@[j] as int, max_run as int) by {
                if j < i {
                    assert(run_bounded(s, sorted@[j] as int, old_max));
                    assert forall|k: int| #[trigger] run_through(s, sorted@[j] as int, k) implies k <= max_run by {
                        assert(k <= old_max);
                    }
                } else {
                    assert forall|k: int| #[trigger] run_through(s, cur, k) implies k <= max_run by {
                        if k > current_run {
                            assert(s.contains(cur - current_run));
                        }
                    }
                }
            }
        }
        i = i + 1;
    }
    proof {
        assert forall|d: int| #[trigger] run_bounded(s, d, max_run as int) by {
            assert forall|k: int| #[trigger] run_through(s, d, k) implies k <= max_run by {
                if k > 0 {
                    assert(s.contains(d));
                    let j = choose|j: int| 0 <= j < sorted@.len() && sorted@[j] == d;
                    assert(run_bounded(s, sorted@[j] as int, max_run as int));
                }
            }
        }
    }
    max_run
}

/// Streak data from a list of completion days, as seen on day `today`.
pub fn compute_streak_impl(dates: &[i32], today: i32) -> (r: StreakData)
    requires
        dates@.len() <= u32::MAX,
    ensures
        streak_matches(dates@, today as int, r),
        r.current_streak_days <= r.max_streak_days,
{
    let sorted = sorted_unique_days(dates);
    let ghost s = day_set(dates@);

    if sorted.len() == 0 {
        proof {
            if dates@.len() > 0 {
                assert(day_set(dates@).contains(dates@[0] as int));
                assert(day_set(sorted@).contains(dates@[0] as int));
            }
        }
        return StreakData { current_streak_days: 0, max_streak_days: 0, last_completed_date: None };
    }

    let last_completed = sorted[sorted.len() - 1];
    proof {
        assert(day_set(sorted@).contains(last_completed as int));
        assert forall|x: int| #[trigger] s.contains(x) implies x <= last_completed by {
            assert(day_set(sorted@).contains(x));
            let j = choose|j: int| 0 <= j < sorted@.len() && sorted@[j] == x;
            if j < sorted@.len() - 1 {
                assert(sorted@[j] < sorted@[sorted@.len() - 1]);
            }
        }
        assert(dates@.len() > 0) by {
            assert(day_set(dates@).contains(last_completed as int));
        }
    }

    let current_streak_days = if last_completed == today {
        count_consecutive_from_end(&sorted, today as i64)
    } else {
        let yesterday = today as i64 - 1;
        if last_completed as i64 == yesterday {
            count_consecutive_from_end(&sorted, yesterday)
        } else {
            0
        }
    };

    let max_streak_days = find_max_consecutive(&sorted);
    proof {
        let anchor = if last_completed == today { today as int } else { today - 1 };
        if last_completed == today || last_completed == today - 1 {
            assert(run_through(s, anchor, current_streak_days as int));
            assert(run_bounded(s, anchor, max_streak_days as int));
        }
    }

    StreakData {
        current_streak_days,
        max_streak_days,
        last_completed_date: Some(last_completed),
    }
}

/// The days on which habit `habit_id` was completed, in log order.
pub fn habit_dates(habit_id: u128, completions: &[Completion]) -> (dates: Vec<i32>)
    ensures
        dates@ == habit_days(completions@, habit_id),
        dates@.len() <= completions@.len(),
{
    let mut dates: Vec<i32> = Vec::new();
    let ghost pred = |c: Completion| c.habit_id == habit_id;
    let ghost date_of = |c: Completion| c.date;
    let mut i: usize = 0;
    while i < completions.len()
        invariant
            0 <= i <= completions@.len(),
            pred == (|c: Completion| c.habit_id == habit_id),
            date_of == (|c: Completion| c.date),
            dates@ == completions@.take(i as int).filter(pred).map_values(date_of),
            dates@.len() <= i,
        decreases completions@.len() - i,
    {
        let c = completions[i];
        proof {
            assert(completions@.take(i + 1) == completions@.take(i as int).push(c));
            completions@.take(i as int).lemma_filter_push(c, pred);
        }
        if c.habit_id == habit_id {
            dates.push(c.date);
            proof {
                let f = completions@.take(i as int).filter(pred);
                assert(f.push(c).map_values(date_of) =~= f.map_values(date_of).push(c.date));
            }
        }
        i = i + 1;
    }
    assert(completions@.take(completions@.len() as int) == completions@);
    dates
}

/// Streak data of habit `habit_id` as seen on day `today`.
pub fn compute_streak_on(habit_id: u128, completions: &[Completion], today: i32) -> (r: StreakData)
    requires
        completions@.len() <= u32::MAX,
    ensures
        streak_matches(habit_days(completions@, habit_id), today as int, r),
        r.current_streak_days <= r.max_streak_days,
{
    let dates = habit_dates(habit_id, completions);
    compute_streak_impl(dates.as_slice(), today)
}

/// Compute streak data for a habit from its completion history, as seen
/// today (UTC).
pub fn compute_streak(habit_id: u128, completions: &[Completion]) -> (r: StreakData)
    requires
        completions@.len() <= u32::MAX,
    ensures
        exists|today: i32| streak_matches(habit_days(completions@, habit_id), today as int, r),
        r.current_streak_days <= r.max_streak_days,
{
    let today = clock::today_day_number();
    compute_streak_on(habit_id, completions, today)
}

/// Length of the run of consecutive completed days of habit `id` that
/// ends at `date`: the largest `n` such that `date`, `date - 1`, ...,
/// `date - n + 1` each have an entry of that habit (zero when `date` has
/// none). The order of the log does not matter.
pub open spec fn run_ending_at(cs: Seq<Completion>, id: u128, date: int) -> int {
    choose|n: int| run_exactly(day_set(habit_days(cs, id)), date, n)
}

/// A run ending at a day has one length.
proof fn lemma_run_exactly_unique(s: Set<int>, end: int, a: int, b: int)
    requires
        run_exactly(s, end, a),
        run_exactly(s, end, b),
    ensures
        a == b,
{
    if a < b {
        assert(s.contains(end - a));
    } else if b < a {
        assert(s.contains(end - b));
    }
}

/// Colour of a heatmap cell for a run of `n` days.
pub open spec fn color_for_count(n: int) -> CalendarColor {
    if n == 0 {
        CalendarColor::Empty
    } else if n <= 3 {
        CalendarColor::Low
    } else if n <= 9 {
        CalendarColor::Mid
    } else {
        CalendarColor::High
    }
}

/// Get calendar color for a date: the colour of the length of the run of
/// completed days ending at that date.
pub fn calendar_color(date: i32, completions: &[Completion], habit_id: u128) -> (color: CalendarColor)
    requires
        completions@.len() <= u32::MAX,
    ensures
        color == color_for_count(run_ending_at(completions@, habit_id, date as int)),
{
    let dates = habit_dates(habit_id, completions);
    let sorted = sorted_unique_days(dates.as_slice());
    let count = count_consecutive_from_end(&sorted, date as i64);
    proof {
        let s = day_set(habit_days(completions@, habit_id));
        assert(run_exactly(s, date as int, count as int));
        let n = run_ending_at(completions@, habit_id, date as int);
        assert(run_exactly(s, date as int, n));
        lemma_run_exactly_unique(s, date as int, n, count as int);
    }

    if count == 0 {
        CalendarColor::Empty
    } else if count <= 3 {
        CalendarColor::Low
    } else if count <= 9 {
        CalendarColor::Mid
    } else {
        CalendarColor::High
    }
}

/// The heatmap colour depends only on which days the habit was completed:
/// duplicates, the order of the log and other habits' entries do not
/// matter.
pub proof fn law_heatmap_depends_only_on_days(a: Seq<Completion>, b: Seq<Completion>, id: u128, date: int)
    requires
        day_set(habit_days(a, id)) == day_set(habit_days(b, id)),
    ensures
        run_ending_at(a, id, date) == run_ending_at(b, id, date),
        color_for_count(run_ending_at(a, id, date)) == color_for_count(run_ending_at(b, id, date)),
{
}

/// The heatmap colour of a date is fixed by the length `k` of the run of
/// completed days that ends there: when `date`, `date - 1`, ...,
/// `date - k + 1` all have an entry of the habit and `date - k` has none,
/// the cell is empty for `k == 0`, low up to 3 days, mid up to 9 and high
/// beyond, whatever the order of the log.
pub proof fn law_heatmap_colour_is_run_length(cs: Seq<Completion>, id: u128, date: int, k: int)
    requires
        run_exactly(day_set(habit_days(cs, id)), date, k),
    ensures
        run_ending_at(cs, id, date) == k,
        color_for_count(run_ending_at(cs, id, date)) == (if k == 0 {
            CalendarColor::Empty
        } else if k <= 3 {
            CalendarColor::Low
        } else if k <= 9 {
            CalendarColor::Mid
        } else {
            CalendarColor::High
        }),
{
    let s = day_set(habit_days(cs, id));
    let n = run_ending_at(cs, id, date);
    assert(run_exactly(s, date, n));
    lemma_run_exactly_unique(s, date, n, k);
}

/// The streak data depends only on which days were completed: duplicates
/// and the order of the log do not matter.
pub proof fn law_streak_depends_only_on_days(a: Seq<i32>, b: Seq<i32>, today: int, ra: StreakData, rb: StreakData)
    requires
        day_set(a) == day_set(b),
        streak_matches(a, today, ra),
        streak_matches(b, today, rb),
    ensures
        ra == rb,
{
    let s = day_set(a);
    if a.len() == 0 || b.len() == 0 {
        if a.len() > 0 {
            assert(day_set(a).contains(a[0] as int));
        }
        if b.len() > 0 {
            assert(day_set(b).contains(b[0] as int));
        }
    } else {
        let ma = ra.last_completed_date->0 as int;
        let mb = rb.last_completed_date->0 as int;
        assert(ma <= mb && mb <= ma);
        // Longest runs agree.
        let la = ra.max_streak_days as int;
        let lb = rb.max_streak_days as int;
        let da = choose|d: int| #[trigger] run_through(s, d, la);
        let db = choose|d: int| #[trigger] run_through(s, d, lb);
        assert(run_bounded(s, db, la));
        assert(run_bounded(s, da, lb));
        // Current streaks agree.
        let ca = ra.current_streak_days as int;
        let cb = rb.current_streak_days as int;
        if ma == today || ma == today - 1 {
            let e = if ma == today { today } else { today - 1 };
            if ca < cb {
                assert(s.contains(e - ca));
            } else if cb < ca {
                assert(s.contains(e - cb));
            }
        }
    }
}

} // verus!
