//! Streaks: runs of consecutive days with activity.
use vstd::prelude::*;
use vstd::set_lib::{lemma_int_range, lemma_len_subset, set_int_range};
use std::collections::HashSet;
use crate::utils::calendar::{parse_ymd, ymd_day};

verus! {

/// The streak that is running and the longest one there ever was, in days.
#[derive(Debug, Clone, Copy, PartialEq, Eq)]
pub struct StreakResult {
    pub current: i32,
    pub longest: i32,
}

impl Default for StreakResult {
    fn default() -> (result: StreakResult)
        ensures
            result.current == 0,
            result.longest == 0,
    {
        StreakResult { current: 0, longest: 0 }
    }
}

/// Whether a text names the date with the given day number.
pub open spec fn names_day(text: Seq<char>, day: int) -> bool {
    match ymd_day(text) {
        Some(d) => d == day,
        None => false,
    }
}

/// The days with activity: the day numbers of those of the first `upto`
/// dates that name a date.
pub open spec fn logged_days(dates: Seq<String>, upto: int) -> Set<int> {
    Set::new(
        |day: int|
            exists|i: int| 0 <= i < upto && i < dates.len() && #[trigger] names_day(dates[i]@, day),
    )
}

/// Whether every day from `from` to `to` has activity.
pub open spec fn all_logged(days: Set<int>, from: int, to: int) -> bool {
    forall|d: int| from <= d <= to ==> #[trigger] days.contains(d)
}

/// Whether a run of exactly `length` consecutive days of `days` ends at
/// `last`: the day `last` and the `length - 1` days before it have
/// activity, the day before those has none.
pub open spec fn run_ends_at(days: Set<int>, last: int, length: int) -> bool {
    &&& length >= 0
    &&& all_logged(days, last - length + 1, last)
    &&& !days.contains(last - length)
}

/// The day at which the running streak ends: today where today has
/// activity, else yesterday where yesterday has; no day otherwise.
pub open spec fn streak_anchor(days: Set<int>, today: int) -> Option<int> {
    if days.contains(today) {
        Some(today)
    } else if days.contains(today - 1) {
        Some(today - 1)
    } else {
        None
    }
}

/// Whether `current` is the length of the running streak: the run that
/// ends today or, where today has no activity yet, yesterday; zero where
/// neither day has activity.
pub open spec fn is_current_streak(days: Set<int>, today: int, current: int) -> bool {
    match streak_anchor(days, today) {
        Some(anchor) => current > 0 && run_ends_at(days, anchor, current),
        None => current == 0,
    }
}

/// Whether `longest` is the length of the longest run of consecutive days
/// in `days`: some run has that length and no run is longer.
pub open spec fn is_longest_streak(days: Set<int>, longest: int) -> bool {
    &&& longest >= 0
    &&& longest > 0 ==> exists|last: int| run_ends_at(days, last, longest)
    &&& forall|last: int, length: int| run_ends_at(days, last, length) ==> length <= longest
}

/// A run of consecutive days is no longer than the number of days there
/// are.
pub proof fn lemma_run_is_bounded(days: Set<int>, first: int, last: int)
    requires
        days.finite(),
        first <= last + 1,
        all_logged(days, first, last),
    ensures
        last - first + 1 <= days.len(),
{
    let run = set_int_range(first, last + 1);
    lemma_int_range(first, last + 1);
    assert forall|d: int| run.contains(d) implies days.contains(d) by {}
    lemma_len_subset(run, days);
}

/// The length of the run in `set` that ends at `last`, counted backwards.
fn count_back(set: &HashSet<i32>, last: i32, Ghost(days): Ghost<Set<int>>, bound: usize) -> (length:
    i32)
    requires
        days.finite(),
        days.len() <= bound <= i32::MAX,
        forall|d: int| days.contains(d) <==> (i32::MIN <= d <= i32::MAX && set@.contains(d as i32)),
    ensures
        run_ends_at(days, last as int, length as int),
{
    broadcast use vstd::std_specs::hash::group_hash_axioms;

    let mut length: i32 = 0;
    let mut day: i64 = last as i64;
    while day >= -2147483648 && set.contains(&(day as i32))
        invariant
            days.finite(),
            days.len() <= bound <= i32::MAX,
            forall|d: int|
                days.contains(d) <==> (i32::MIN <= d <= i32::MAX && set@.contains(d as i32)),
            day == last - length,
            0 <= length,
            i32::MIN - 1 <= day <= i32::MAX,
            all_logged(days, day + 1, last as int),
        decreases day - i32::MIN + 1,
    {
        proof {
            assert(days.contains(day as int));
            assert(all_logged(days, day as int, last as int));
            lemma_run_is_bounded(days, day as int, last as int);
        }
        length = length + 1;
        day = day - 1;
    }
    length
}

/// The length of the run in `set` that starts at `first`, counted forwards.
fn count_forward(
    set: &HashSet<i32>,
    first: i32,
    Ghost(days): Ghost<Set<int>>,
    bound: usize,
) -> (length: i32)
    requires
        days.finite(),
        days.len() <= bound <= i32::MAX,
        forall|d: int| days.contains(d) <==> (i32::MIN <= d <= i32::MAX && set@.contains(d as i32)),
    ensures
        length >= 0,
        all_logged(days, first as int, first + length - 1),
        !days.contains(first + length),
{
    broadcast use vstd::std_specs::hash::group_hash_axioms;

    let mut length: i32 = 0;
    let mut day: i64 = first as i64;
    while day <= 2147483647 && set.contains(&(day as i32))
        invariant
            days.finite(),
            days.len() <= bound <= i32::MAX,
            forall|d: int|
                days.contains(d) <==> (i32::MIN <= d <= i32::MAX && set@.contains(d as i32)),
            day == first + length,
            0 <= length,
            i32::MIN <= day <= i32::MAX + 1,
            all_logged(days, first as int, day - 1),
        decreases i32::MAX + 1 - day,
    {
        proof {
            assert(days.contains(day as int));
            assert(all_logged(days, first as int, day as int));
            lemma_run_is_bounded(days, first as int, day as int);
        }
        length = length + 1;
        day = day + 1;
    }
    length
}

/// Works out the streaks of a user from the dates with activity, each
/// written as `YYYY-MM-DD`, and the day number of today. Texts that name no
/// date are passed over; a date may occur more than once.
pub fn calculate_streak(dates: &Vec<String>, today: i64) -> (result: StreakResult)
    requires
        dates.len() <= i32::MAX,
    ensures
        is_current_streak(logged_days(dates@, dates.len() as int), today as int, result.current as int),
        is_longest_streak(logged_days(dates@, dates.len() as int), result.longest as int),
{
    broadcast use vstd::std_specs::hash::group_hash_axioms;

    let mut set: HashSet<i32> = HashSet::new();
    let mut parsed: Vec<i32> = Vec::new();
    let ghost mut days: Set<int> = Set::empty();
    let mut i: usize = 0;
    assert(logged_days(dates@, 0) =~= Set::<int>::empty());
    while i < dates.len()
        invariant
            i <= dates.len() <= i32::MAX,
            days.finite(),
            days.len() <= i,
            days == logged_days(dates@, i as int),
            forall|d: int|
                days.contains(d) <==> (i32::MIN <= d <= i32::MAX && set@.contains(d as i32)),
            forall|d: int|
                days.contains(d) <==> exists|k: int|
                    0 <= k < parsed.len() && #[trigger] parsed[k] == d,
        decreases dates.len() - i,
    {
        let ghost before = days;
        let ghost parsed_before = parsed@;
        match parse_ymd(dates[i].as_str()) {
            Some(day) => {
                set.insert(day);
                parsed.push(day);
                proof {
                    days = before.insert(day as int);
                    assert(logged_days(dates@, i + 1) =~= days) by {
                        assert forall|d: int| logged_days(dates@, i + 1).contains(d) implies days.contains(
                            d,
                        ) by {
                            let k = choose|k: int|
                                0 <= k < i + 1 && k < dates@.len() && #[trigger] names_day(dates@[k]@, d);
                            if k < i {
                                assert(logged_days(dates@, i as int).contains(d));
                            }
                        }
                        assert forall|d: int| days.contains(d) implies logged_days(
                            dates@,
                            i + 1,
                        ).contains(d) by {
                            if before.contains(d) {
                                let k = choose|k: int|
                                    0 <= k < i && k < dates@.len() && #[trigger] names_day(dates@[k]@, d);
                                assert(names_day(dates@[k]@, d));
                            } else {
                                assert(names_day(dates@[i as int]@, d));
                            }
                        }
                    }
                    assert forall|d: int| days.contains(d) implies exists|k: int|
                        0 <= k < parsed.len() && #[trigger] parsed[k] == d by {
                        if before.contains(d) {
                            let k = choose|k: int|
                                0 <= k < parsed_before.len() && #[trigger] parsed_before[k] == d;
                            assert(parsed[k] == d);
                        } else {
                            assert(parsed[parsed.len() - 1] == d);
                        }
                    }
                    assert forall|d: int| (exists|k: int|
                        0 <= k < parsed.len() && #[trigger] parsed[k] == d) implies days.contains(
                        d,
                    ) by {
                        let k = choose|k: int| 0 <= k < parsed.len() && #[trigger] parsed[k] == d;
                        if k < parsed_before.len() {
                            assert(parsed_before[k] == d);
                        }
                    }
                }
            },
            None => {
                proof {
                    assert(logged_days(dates@, i + 1) =~= days) by {
                        assert forall|d: int| logged_days(dates@, i + 1).contains(d) implies days.contains(
                            d,
                        ) by {
                            let k = choose|k: int|
                                0 <= k < i + 1 && k < dates@.len() && #[trigger] names_day(dates@[k]@, d);
                            assert(k < i);
                            assert(logged_days(dates@, i as int).contains(d));
                        }
                        assert forall|d: int| days.contains(d) implies logged_days(
                            dates@,
                            i + 1,
                        ).contains(d) by {
                            let k = choose|k: int|
                                0 <= k < i && k < dates@.len() && #[trigger] names_day(dates@[k]@, d);
                            assert(names_day(dates@[k]@, d));
                        }
                    }
                }
            },
        }
        i += 1;
    }
    let bound = dates.len();
    let today_logged = -2147483648 <= today && today <= 2147483647 && set.contains(
        &(today as i32),
    );
    let yesterday_logged = -2147483648 < today && today <= 2147483648 && set.contains(
        &((today - 1) as i32),
    );
    proof {
        assert(today_logged == days.contains(today as int));
        assert(yesterday_logged == days.contains(today - 1));
    }
    let current: i32 = if today_logged {
        count_back(&set, today as i32, Ghost(days), bound)
    } else if yesterday_logged {
        count_back(&set, (today - 1) as i32, Ghost(days), bound)
    } else {
        0
    };
    let mut longest: i32 = 0;
    let ghost mut best_last: int = 0;
    let mut j: usize = 0;
    while j < parsed.len()
        invariant
            j <= parsed.len(),
            days.finite(),
            days.len() <= bound <= i32::MAX,
            forall|d: int|
                days.contains(d) <==> (i32::MIN <= d <= i32::MAX && set@.contains(d as i32)),
            longest >= 0,
            longest > 0 ==> run_ends_at(days, best_last, longest as int),
            forall|k: int, e: int|
                0 <= k < j && !days.contains(parsed[k] - 1) && #[trigger] all_logged(
                    days,
                    parsed[k] as int,
                    e,
                ) ==> e - parsed[k] + 1 <= longest,
        decreases parsed.len() - j,
    {
        let first = parsed[j];
        let starts_run = first == -2147483648 || !set.contains(&(first - 1));
        if starts_run {
            let length = count_forward(&set, first, Ghost(days), bound);
            proof {
                assert forall|e: int| #[trigger] all_logged(days, first as int, e) implies e
                    - first + 1 <= length by {
                    if e - first + 1 > length {
                        assert(days.contains(first + length));
                    }
                }
            }
            if length > longest {
                longest = length;
                proof {
                    best_last = first + length - 1;
                }
            }
        }
        j += 1;
    }
    proof {
        assert forall|last: int, length: int| run_ends_at(days, last, length) implies length
            <= longest by {
            if length > 0 {
                let first = last - length + 1;
                assert(days.contains(first));
                let k = choose|k: int| 0 <= k < parsed.len() && #[trigger] parsed[k] == first;
                assert(!days.contains(parsed[k] - 1));
                assert(all_logged(days, parsed[k] as int, last));
            }
        }
    }
    StreakResult { current, longest }
}

} // verus!
