//! Fine calculator: a pure function of (due date, as-of date) to an amount.
//!
//! Dates are Unix timestamps in whole seconds. A loan settled at or before
//! its due date owes nothing. Past the due date, the amount charged at
//! return time counts whole elapsed days; the live projection used by
//! reporting queries works at fractional-day granularity, scaling by the
//! rate before truncating. The asymmetry is deliberate and kept.

use vstd::prelude::*;

verus! {

/// Fine charged per whole day a loan stays unreturned past its due date,
/// in currency minor units.
pub const FINE_RATE_PER_DAY: i64 = 1000;

pub const SECONDS_PER_DAY: i64 = 86400;

/// Amount owed when a loan due at `due_date` is returned at `return_date`:
/// whole overdue days times the daily rate, and zero when not overdue.
pub open spec fn spec_fine_at_return(due_date: int, return_date: int) -> int {
    if return_date > due_date {
        ((return_date - due_date) / (SECONDS_PER_DAY as int)) * (FINE_RATE_PER_DAY as int)
    } else {
        0
    }
}

/// Amount projected as owed right now on a still-open loan due at
/// `due_date`: overdue seconds are scaled by the daily rate first and the
/// quotient truncated, so partial days already accrue a partial fine.
pub open spec fn spec_fine_projection(due_date: int, as_of: int) -> int {
    if as_of > due_date {
        ((as_of - due_date) * (FINE_RATE_PER_DAY as int)) / (SECONDS_PER_DAY as int)
    } else {
        0
    }
}

/// Fine recorded when a loan is returned. Never negative; zero at or
/// before the due date.
pub fn fine_at_return(due_date: i64, return_date: i64) -> (fine: i64)
    requires
        return_date - due_date <= i64::MAX,
    ensures
        fine == spec_fine_at_return(due_date as int, return_date as int),
        0 <= fine,
{
    if return_date > due_date {
        let overdue_seconds: u64 = (return_date - due_date) as u64;
        let overdue_days: u64 = overdue_seconds / 86400;
        proof {
            assert(overdue_days * 1000 <= i64::MAX) by (nonlinear_arith)
                requires
                    overdue_days == overdue_seconds / 86400,
                    overdue_seconds <= i64::MAX,
            ;
        }
        (overdue_days * 1000) as i64
    } else {
        0
    }
}

/// Fine projected for a live overdue view of a still-open loan.
pub fn fine_projection(due_date: i64, as_of: i64) -> (fine: i64)
    requires
        as_of - due_date <= i64::MAX,
    ensures
        fine == spec_fine_projection(due_date as int, as_of as int),
        0 <= fine,
{
    if as_of > due_date {
        let overdue_seconds: u128 = (as_of - due_date) as u128;
        let scaled: u128 = (overdue_seconds * 1000) / 86400;
        proof {
            assert(scaled <= i64::MAX) by (nonlinear_arith)
                requires
                    scaled == (overdue_seconds * 1000) / 86400,
                    overdue_seconds <= i64::MAX,
            ;
        }
        scaled as i64
    } else {
        0
    }
}

/// Sum of the live fine projections of a set of still-open loans, given by
/// their due dates.
pub open spec fn spec_total_projection(due_dates: Seq<i64>, as_of: int) -> int
    decreases due_dates.len(),
{
    if due_dates.len() == 0 {
        0
    } else {
        spec_fine_projection(due_dates[0] as int, as_of)
            + spec_total_projection(due_dates.drop_first(), as_of)
    }
}

proof fn lemma_total_projection_nonneg(due_dates: Seq<i64>, as_of: int)
    ensures
        0 <= spec_total_projection(due_dates, as_of),
    decreases due_dates.len(),
{
    if due_dates.len() > 0 {
        lemma_total_projection_nonneg(due_dates.drop_first(), as_of);
    }
}

proof fn lemma_total_projection_split(due_dates: Seq<i64>, as_of: int, i: int)
    requires
        0 <= i < due_dates.len(),
    ensures
        spec_total_projection(due_dates.subrange(i, due_dates.len() as int), as_of)
            == spec_fine_projection(due_dates[i] as int, as_of)
                + spec_total_projection(due_dates.subrange(i + 1, due_dates.len() as int), as_of),
{
    let tail = due_dates.subrange(i, due_dates.len() as int);
    assert(tail.drop_first() =~= due_dates.subrange(i + 1, due_dates.len() as int));
}

/// Total fine a member currently owes across the open loans given by their
/// due dates, as the reporting layer shows it.
pub fn total_projected_fines(due_dates: &Vec<i64>, as_of: i64) -> (total: i64)
    requires
        forall|i: int| 0 <= i < due_dates@.len() ==> as_of - due_dates@[i] <= i64::MAX,
        spec_total_projection(due_dates@, as_of as int) <= i64::MAX,
    ensures
        total == spec_total_projection(due_dates@, as_of as int),
        0 <= total,
{
    let ghost all = due_dates@;
    let mut total: i64 = 0;
    let mut i: usize = 0;
    proof {
        assert(all.subrange(0, all.len() as int) =~= all);
    }
    while i < due_dates.len()
        invariant
            0 <= i <= all.len(),
            due_dates@ == all,
            forall|j: int| 0 <= j < all.len() ==> as_of - all[j] <= i64::MAX,
            0 <= total,
            total + spec_total_projection(all.subrange(i as int, all.len() as int), as_of as int)
                == spec_total_projection(all, as_of as int),
            spec_total_projection(all, as_of as int) <= i64::MAX,
        decreases all.len() - i,
    {
        proof {
            lemma_total_projection_split(all, as_of as int, i as int);
            lemma_total_projection_nonneg(
                all.subrange(i as int + 1, all.len() as int),
                as_of as int,
            );
        }
        let f = fine_projection(due_dates[i], as_of);
        total = total + f;
        i = i + 1;
    }
    proof {
        assert(all.subrange(all.len() as int, all.len() as int)
            =~= Seq::<i64>::empty());
    }
    total
}

} // verus!
