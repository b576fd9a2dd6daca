//! Loans: the two-state lifecycle. A loan is created `Borrowed` and
//! mutated exactly once, by the return operation, to `Returned` with its
//! return date and fine; it is immutable thereafter.

use vstd::prelude::*;
use crate::fine::spec_fine_at_return;
use crate::fine::fine_at_return;

verus! {

/// Lifecycle state of a loan. There is no cancellation state.
#[derive(Clone, Copy, Debug, PartialEq, Eq, Structural)]
pub enum LoanStatus {
    Borrowed,
    Returned,
}

impl LoanStatus {
    pub open spec fn spec_label(self) -> Seq<char> {
        match self {
            LoanStatus::Borrowed => "borrowed"@,
            LoanStatus::Returned => "returned"@,
        }
    }

    /// The status text as the store records it.
    pub fn label(&self) -> (label: &'static str)
        ensures
            label@ == self.spec_label(),
    {
        match self {
            LoanStatus::Borrowed => "borrowed",
            LoanStatus::Returned => "returned",
        }
    }
}

/// One loan of one copy of a book by a member. Dates are Unix timestamps
/// in seconds.
pub struct Loan {
    pub id: i64,
    pub book_id: i64,
    pub member_id: i64,
    pub loan_date: i64,
    pub due_date: i64,
    pub return_date: Option<i64>,
    pub status: LoanStatus,
    pub fine_amount: i64,
}

impl Loan {
    /// Dates are real timestamps in order; the return date and fine exist
    /// exactly on a returned loan.
    pub open spec fn wf(self) -> bool {
        &&& 0 <= self.loan_date <= self.due_date
        &&& 0 <= self.fine_amount
        &&& (self.status == LoanStatus::Returned <==> self.return_date is Some)
        &&& self.status == LoanStatus::Borrowed ==> self.fine_amount == 0
        &&& (match self.return_date {
            Option::Some(d) => 0 <= d,
            Option::None => true,
        })
    }

    pub open spec fn is_borrowed(self) -> bool {
        self.status == LoanStatus::Borrowed
    }

    /// The loan a borrow operation inserts: due `days` days after `now`,
    /// open, with no fine yet.
    pub open spec fn spec_created(id: i64, book_id: i64, member_id: i64, now: i64, days: i64) -> Loan {
        Loan {
            id,
            book_id,
            member_id,
            loan_date: now,
            due_date: (now + days * 86400) as i64,
            return_date: Option::None,
            status: LoanStatus::Borrowed,
            fine_amount: 0,
        }
    }

    /// Creates the loan row a successful borrow inserts.
    pub fn create(id: i64, book_id: i64, member_id: i64, now: i64, days: i64) -> (loan: Loan)
        requires
            0 <= now,
            1 <= days,
            now + days * 86400 <= i64::MAX,
        ensures
            loan == Loan::spec_created(id, book_id, member_id, now, days),
            loan.wf(),
    {
        let due_date = now + days * 86400;
        Loan {
            id,
            book_id,
            member_id,
            loan_date: now,
            due_date,
            return_date: Option::None,
            status: LoanStatus::Borrowed,
            fine_amount: 0,
        }
    }

    /// The loan after its single return mutation at time `now`.
    pub open spec fn spec_closed(self, now: i64) -> Loan {
        Loan {
            return_date: Option::Some(now),
            status: LoanStatus::Returned,
            fine_amount: spec_fine_at_return(self.due_date as int, now as int) as i64,
            ..self
        }
    }

    /// Closes an open loan: sets the return date, flips the status to
    /// `Returned`, and records the fine owed. Returns the fine.
    pub fn close(&mut self, now: i64) -> (fine: i64)
        requires
            old(self).wf(),
            old(self).is_borrowed(),
            0 <= now,
        ensures
            *final(self) == old(self).spec_closed(now),
            fine == spec_fine_at_return(old(self).due_date as int, now as int),
            final(self).wf(),
    {
        let fine = fine_at_return(self.due_date, now);
        self.return_date = Option::Some(now);
        self.status = LoanStatus::Returned;
        self.fine_amount = fine;
        fine
    }
}

} // verus!
