use pustaka::fine::{fine_at_return, fine_projection, total_projected_fines, FINE_RATE_PER_DAY, SECONDS_PER_DAY};

const DAY: i64 = 86400;

#[test]
fn constants_match_the_store_rates() {
    assert_eq!(FINE_RATE_PER_DAY, 1000);
    assert_eq!(SECONDS_PER_DAY, 86400);
}

#[test]
fn fine_on_the_exact_due_date_is_zero() {
    let due = 1_700_000_000;
    assert_eq!(fine_at_return(due, due), 0);
}

#[test]
fn fine_three_days_late_is_three_thousand() {
    let due = 1_700_000_000;
    assert_eq!(fine_at_return(due, due + 3 * DAY), 3000);
}

#[test]
fn fine_on_an_early_return_is_zero_never_negative() {
    let due = 1_700_000_000;
    assert_eq!(fine_at_return(due, due - 1), 0);
    assert_eq!(fine_at_return(due, due - 10 * DAY), 0);
}

#[test]
fn fine_truncates_partial_days_at_return() {
    let due = 1_700_000_000;
    assert_eq!(fine_at_return(due, due + DAY - 1), 0);
    assert_eq!(fine_at_return(due, due + DAY), 1000);
    assert_eq!(fine_at_return(due, due + 2 * DAY + 86399), 2000);
}

#[test]
fn live_projection_accrues_fractional_days() {
    let due = 1_700_000_000;
    // Half a day overdue already projects half the daily rate.
    assert_eq!(fine_projection(due, due + DAY / 2), 500);
    // The asymmetry with the return-time fine is deliberate: at return the
    // same half day still charges nothing.
    assert_eq!(fine_at_return(due, due + DAY / 2), 0);
}

#[test]
fn live_projection_is_zero_until_the_due_date() {
    let due = 1_700_000_000;
    assert_eq!(fine_projection(due, due), 0);
    assert_eq!(fine_projection(due, due - 5 * DAY), 0);
}

#[test]
fn live_projection_whole_days_match_the_rate() {
    let due = 1_700_000_000;
    assert_eq!(fine_projection(due, due + 3 * DAY), 3000);
}

#[test]
fn total_projection_sums_every_open_loan() {
    let now = 1_700_000_000;
    let dues = vec![now - 3 * DAY, now + DAY, now - DAY / 2];
    assert_eq!(total_projected_fines(&dues, now), 3000 + 0 + 500);
}

#[test]
fn total_projection_of_no_loans_is_zero() {
    let dues: Vec<i64> = Vec::new();
    assert_eq!(total_projected_fines(&dues, 1_700_000_000), 0);
}
