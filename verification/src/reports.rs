//! Read-only reporting values the dashboard shows, and the one decision
//! the activity view makes in code rather than in a query. Dates are Unix
//! timestamps in seconds.

use vstd::prelude::*;

verus! {

/// A member is shown as active while their last loan is at most thirty
/// whole days old, counted in truncated whole days; with no loan at all
/// they are inactive.
pub open spec fn spec_recently_active(last_activity: Option<i64>, now: i64) -> bool {
    match last_activity {
        Option::Some(d) => now - d < 31 * 86400,
        Option::None => false,
    }
}

/// The activity label of a member for the dashboard, from the date of
/// their latest loan.
pub fn member_activity_status(last_activity: Option<i64>, now: i64) -> (status: &'static str)
    requires
        match last_activity {
            Option::Some(d) => now - d <= i64::MAX,
            Option::None => true,
        },
    ensures
        status@ == if spec_recently_active(last_activity, now) {
            "Active"@
        } else {
            "Inactive"@
        },
{
    match last_activity {
        Option::Some(d) => {
            if d >= now {
                "Active"
            } else if now - d < 31 * 86400 {
                "Active"
            } else {
                "Inactive"
            }
        },
        Option::None => "Inactive",
    }
}

/// Weekday of Unix timestamp `ts`, numbered as the store's `%w`: 0 for
/// Sunday through 6 for Saturday. The epoch fell on a Thursday.
pub open spec fn spec_weekday(ts: int) -> int {
    ((ts / 86400) + 4) % 7
}

/// The weekday slot a loan date falls in.
pub fn weekday_index(ts: i64) -> (w: usize)
    requires
        0 <= ts,
    ensures
        w == spec_weekday(ts as int),
        w < 7,
{
    let days: u64 = (ts as u64) / 86400;
    ((days + 4) % 7) as usize
}

/// How many of `dates` fall on weekday `w`.
pub open spec fn spec_weekday_count(dates: Seq<i64>, w: int) -> nat
    decreases dates.len(),
{
    if dates.len() == 0 {
        0
    } else {
        spec_weekday_count(dates.drop_last(), w) + if spec_weekday(dates.last() as int) == w {
            1nat
        } else {
            0nat
        }
    }
}

proof fn lemma_weekday_count_bound(dates: Seq<i64>, w: int)
    ensures
        spec_weekday_count(dates, w) <= dates.len(),
    decreases dates.len(),
{
    if dates.len() > 0 {
        lemma_weekday_count_bound(dates.drop_last(), w);
    }
}

/// Buckets loan dates by weekday for the circulation chart: slot 0 counts
/// Sundays, slot 6 Saturdays, computed in application code rather than in
/// query text.
pub fn weekly_circulation(loan_dates: &Vec<i64>) -> (counts: Vec<usize>)
    requires
        forall|i: int| 0 <= i < loan_dates@.len() ==> 0 <= #[trigger] loan_dates@[i],
    ensures
        counts@.len() == 7,
        forall|w: int| 0 <= w < 7 ==> counts@[w] == spec_weekday_count(loan_dates@, w),
{
    let ghost all = loan_dates@;
    let mut counts: Vec<usize> = vec![0, 0, 0, 0, 0, 0, 0];
    let mut i: usize = 0;
    proof {
        assert(all.subrange(0, 0) =~= Seq::<i64>::empty());
    }
    while i < loan_dates.len()
        invariant
            0 <= i <= all.len(),
            loan_dates@ == all,
            forall|j: int| 0 <= j < all.len() ==> 0 <= #[trigger] all[j],
            counts@.len() == 7,
            forall|w: int|
                0 <= w < 7 ==> #[trigger] counts@[w] == spec_weekday_count(
                    all.subrange(0, i as int),
                    w,
                ),
        decreases all.len() - i,
    {
        let ghost prefix = all.subrange(0, i as int);
        let ghost extended = all.subrange(0, i as int + 1);
        proof {
            assert(extended.drop_last() =~= prefix);
            assert(extended.last() == all[i as int]);
            lemma_weekday_count_bound(prefix, spec_weekday(all[i as int] as int));
        }
        let w = weekday_index(loan_dates[i]);
        let slot = &mut counts[w];
        *slot = *slot + 1;
        i = i + 1;
    }
    proof {
        assert(all.subrange(0, all.len() as int) =~= all);
    }
    counts
}

/// The weekday name shown on the chart, in the interface's language.
pub fn weekday_name(w: usize) -> (name: &'static str)
    requires
        w < 7,
    ensures
        (w == 0 ==> name@ == "Minggu"@),
        (w == 1 ==> name@ == "Senin"@),
        (w == 2 ==> name@ == "Selasa"@),
        (w == 3 ==> name@ == "Rabu"@),
        (w == 4 ==> name@ == "Kamis"@),
        (w == 5 ==> name@ == "Jumat"@),
        (w == 6 ==> name@ == "Sabtu"@),
{
    if w == 0 {
        "Minggu"
    } else if w == 1 {
        "Senin"
    } else if w == 2 {
        "Selasa"
    } else if w == 3 {
        "Rabu"
    } else if w == 4 {
        "Kamis"
    } else if w == 5 {
        "Jumat"
    } else {
        "Sabtu"
    }
}

/// One line of the recent-activity feed.
pub struct RecentActivity {
    pub id: String,
    pub title: String,
    pub description: String,
    pub time: String,
    pub activity_kind: String,
}

/// Loan count of one weekday, for the weekly circulation chart.
pub struct DailyStats {
    pub day: String,
    pub count: i64,
}

/// The dashboard's headline numbers.
pub struct Stats {
    pub total_books: i64,
    pub total_members: i64,
    pub active_loans: i64,
    pub overdue_loans: i64,
    pub monthly_new_members: i64,
    pub total_loans_count: i64,
}

/// One member's borrowing figures.
pub struct MemberStats {
    pub total_loans_30_days: i64,
    pub total_loans_1_year: i64,
    pub active_loans: i64,
    pub overdue_loans: i64,
    pub total_fines: i64,
}

/// Loan traffic of one category.
pub struct CategoryStat {
    pub category: String,
    pub count: i64,
}

/// Loan traffic of one title.
pub struct BookStat {
    pub title: String,
    pub author: String,
    pub category: Option<String>,
    pub cover: Option<String>,
    pub loan_count: i64,
}

/// One member's row in the activity view.
pub struct MemberActivity {
    pub name: String,
    pub joined_at: Option<i64>,
    pub total_loans: i64,
    pub status: String,
    pub last_activity: Option<i64>,
}

} // verus!
