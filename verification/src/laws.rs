//! The guarantees the loan lifecycle engine gives, stated over the
//! operations' transitions and proved once and for all.

use vstd::prelude::*;
use crate::errors::LibError;
use crate::library::LibState;
use crate::library::lemma_borrow_preserves_wf;
use crate::library::lemma_count_at_least_one;
use crate::loan::Loan;
use crate::loan::LoanStatus;

verus! {

/// For all books, at all times: `0 <= available_copy <= total_copy`. Every
/// operation keeps the library well formed, and well-formedness bounds
/// every book's copy counts.
pub proof fn lemma_copy_bounds(s: LibState)
    requires
        s.wf(),
    ensures
        forall|i: int|
            0 <= i < s.books.len() ==> 0 <= (#[trigger] s.books[i]).available_copy
                <= s.books[i].total_copy,
{
}

/// Borrowing a book with no available copy always fails with `OutOfStock`
/// and leaves the state unchanged, whoever asks and for however long.
pub proof fn lemma_borrow_out_of_stock(
    s: LibState,
    book_id: i64,
    member_id: i64,
    days: i64,
    now: i64,
)
    requires
        s.wf(),
        s.has_book(book_id),
        s.books[s.book_at(book_id)].is_active(),
        s.books[s.book_at(book_id)].available_copy == 0,
    ensures
        s.spec_borrow(book_id, member_id, days, now).0 == s,
        s.spec_borrow(book_id, member_id, days, now).1 == Result::<i64, LibError>::Err(
            LibError::OutOfStock,
        ),
{
}

/// A book with an open loan cannot be deleted: the attempt fails with
/// `BookHasActiveLoans` and changes nothing. `j` names any open loan on
/// the book.
pub proof fn lemma_delete_book_blocked(s: LibState, book_id: i64, now: i64, j: int)
    requires
        s.wf(),
        0 <= j < s.loans.len(),
        s.loans[j].book_id == book_id,
        s.loans[j].is_borrowed(),
    ensures
        s.spec_delete_book(book_id, now).0 == s,
        s.spec_delete_book(book_id, now).1 == Result::<(), LibError>::Err(
            LibError::BookHasActiveLoans,
        ),
{
    lemma_count_at_least_one(s.loans, j, book_id);
}

/// Borrowing and then returning restores the book's `available_copy` to
/// its pre-borrow value and closes the loan exactly once: the return
/// succeeds, and a second return of the same loan fails with
/// `AlreadyReturned` without touching the state again, so nothing is
/// double-incremented.
pub proof fn lemma_borrow_then_return(
    s: LibState,
    book_id: i64,
    member_id: i64,
    days: i64,
    now1: i64,
    now2: i64,
    now3: i64,
)
    requires
        s.wf(),
        0 <= now1,
        days > 0 ==> now1 + days * 86400 <= i64::MAX,
        s.next_loan_id < i64::MAX,
        0 <= now2,
        0 <= now3,
        s.spec_borrow(book_id, member_id, days, now1).1 is Ok,
    ensures
        ({
            let loan_id = s.next_loan_id as i64;
            let s1 = s.spec_borrow(book_id, member_id, days, now1).0;
            let (s2, r2) = s1.spec_return(loan_id, now2);
            let (s3, r3) = s2.spec_return(loan_id, now3);
            &&& s.spec_borrow(book_id, member_id, days, now1).1 == Result::<i64, LibError>::Ok(
                loan_id,
            )
            &&& r2 == Result::<(), LibError>::Ok(())
            &&& s2.books[s2.book_at(book_id)].available_copy == s.books[s.book_at(
                book_id,
            )].available_copy
            &&& s2.books[s2.book_at(book_id)].id == book_id
            &&& s2.loans[s2.loan_at(loan_id)].status == LoanStatus::Returned
            &&& s2.loans[s2.loan_at(loan_id)].return_date == Option::Some(now2)
            &&& r3 == Result::<(), LibError>::Err(LibError::AlreadyReturned)
            &&& s3 == s2
        }),
{
    lemma_borrow_preserves_wf(s, book_id, member_id, days, now1);
    let loan_id = s.next_loan_id as i64;
    let s1 = s.spec_borrow(book_id, member_id, days, now1).0;
    let bi = s.book_at(book_id);
    let b = s.books[bi];
    let loan = Loan::spec_created(loan_id, book_id, member_id, now1, days);
    let li = s.loans.len() as int;
    assert(s1.loans[li] == loan);
    assert(s1.has_loan(loan_id));
    assert(s1.loan_at(loan_id) == li);
    assert(s1.books[bi].id == book_id);
    assert(s1.has_book(book_id));
    assert(s1.book_at(book_id) == bi);
    let (s2, r2) = s1.spec_return(loan_id, now2);
    assert(s2.books[bi].available_copy == b.available_copy);
    assert(s2.books[bi].id == book_id);
    assert(s2.has_book(book_id));
    assert(s2.book_at(book_id) == bi) by {
        let c = s2.book_at(book_id);
        assert(0 <= c < s2.books.len() && s2.books[c].id == book_id);
        assert(s1.books[c].id == book_id);
        assert(c == bi);
    }
    assert(s2.loans[li] == loan.spec_closed(now2));
    assert(s2.has_loan(loan_id));
    assert(s2.loan_at(loan_id) == li) by {
        let c = s2.loan_at(loan_id);
        assert(0 <= c < s2.loans.len() && s2.loans[c].id == loan_id);
        assert(s1.loans[c].id == loan_id);
        assert(c == li);
    }
    assert(!s2.loans[s2.loan_at(loan_id)].is_borrowed());
}

} // verus!
