//! The loan lifecycle and inventory consistency engine over an explicit
//! model of the persistent store's contents.
//!
//! `Library` holds the rows the core operations read and write; the store
//! itself stays external, and a shell applies the same transitions to it
//! inside one transaction per operation. The well-formedness predicate is
//! the set of invariants the engine protects: copy counts stay within
//! bounds, row identities stay unique, loans reference existing books, and
//! every book's available copies plus its open loans equal its total
//! copies.

use vstd::prelude::*;
use crate::book::Book;
use crate::book::BookStatus;
use crate::book::BookEdit;
use crate::book::NewBook;
use crate::codes::book_barcode;
use crate::codes::next_member_code;
use crate::codes::render_year_prefix;
use crate::codes::spec_barcode;
use crate::codes::spec_member_code;
use crate::codes::spec_next_seq;
use crate::codes::spec_year_prefix;
use crate::errors::LibError;
use crate::loan::Loan;
use crate::member::Member;
use crate::member::MemberStatus;
use crate::member::NewMember;
use crate::text::is_blank;
use crate::text::is_prefix_of;
use crate::text::lex_lt;
use crate::text::str_is_blank;
use crate::text::str_lex_lt;
use crate::text::str_starts_with;

verus! {

/// The greatest member code, in the store's lexicographic order, among
/// members whose code begins with `prefix`; `None` when no code matches.
pub open spec fn spec_max_code(members: Seq<Member>, prefix: Seq<char>) -> Option<Seq<char>>
    decreases members.len(),
{
    if members.len() == 0 {
        Option::None
    } else {
        let rest = spec_max_code(members.drop_last(), prefix);
        let code = members.last().member_code@;
        if is_prefix_of(prefix, code) {
            match rest {
                Option::None => Option::Some(code),
                Option::Some(best) => if lex_lt(best, code) {
                    Option::Some(code)
                } else {
                    Option::Some(best)
                },
            }
        } else {
            rest
        }
    }
}

/// The code a member registered against `members` in `year` gets: the
/// supplied code when it is not blank, else the next generated code of the
/// year.
pub open spec fn spec_chosen_member_code(
    supplied: Option<Seq<char>>,
    members: Seq<Member>,
    year: nat,
) -> Seq<char> {
    let generated = spec_member_code(
        year,
        spec_next_seq(spec_max_code(members, spec_year_prefix(year))),
    );
    match supplied {
        Option::Some(c) => if !is_blank(c) {
            c
        } else {
            generated
        },
        Option::None => generated,
    }
}

/// Number of open loans on the book with identity `book_id`.
pub open spec fn count_borrowed(loans: Seq<Loan>, book_id: i64) -> nat
    decreases loans.len(),
{
    if loans.len() == 0 {
        0
    } else {
        count_borrowed(loans.drop_last(), book_id) + if loans.last().book_id == book_id
            && loans.last().is_borrowed() {
            1nat
        } else {
            0nat
        }
    }
}

pub proof fn lemma_count_push(loans: Seq<Loan>, l: Loan, book_id: i64)
    ensures
        count_borrowed(loans.push(l), book_id) == count_borrowed(loans, book_id) + if l.book_id
            == book_id && l.is_borrowed() {
            1nat
        } else {
            0nat
        },
{
    assert(loans.push(l).drop_last() =~= loans);
}

pub proof fn lemma_count_update(loans: Seq<Loan>, j: int, l: Loan, book_id: i64)
    requires
        0 <= j < loans.len(),
    ensures
        count_borrowed(loans.update(j, l), book_id) as int == count_borrowed(loans, book_id)
            as int - (if loans[j].book_id == book_id && loans[j].is_borrowed() {
            1int
        } else {
            0int
        }) + (if l.book_id == book_id && l.is_borrowed() {
            1int
        } else {
            0int
        }),
    decreases loans.len(),
{
    if j == loans.len() - 1 {
        assert(loans.update(j, l).drop_last() =~= loans.drop_last());
    } else {
        assert(loans.update(j, l).drop_last() =~= loans.drop_last().update(j, l));
        lemma_count_update(loans.drop_last(), j, l, book_id);
    }
}

pub proof fn lemma_count_absent(loans: Seq<Loan>, book_id: i64)
    requires
        forall|j: int| 0 <= j < loans.len() ==> (#[trigger] loans[j]).book_id != book_id,
    ensures
        count_borrowed(loans, book_id) == 0,
    decreases loans.len(),
{
    if loans.len() > 0 {
        lemma_count_absent(loans.drop_last(), book_id);
    }
}

pub proof fn lemma_count_at_least_one(loans: Seq<Loan>, j: int, book_id: i64)
    requires
        0 <= j < loans.len(),
        loans[j].book_id == book_id,
        loans[j].is_borrowed(),
    ensures
        count_borrowed(loans, book_id) >= 1,
    decreases loans.len(),
{
    if j < loans.len() - 1 {
        lemma_count_at_least_one(loans.drop_last(), j, book_id);
    }
}

/// Number of open loans held by the member with identity `member_id`.
pub open spec fn count_borrowed_by(loans: Seq<Loan>, member_id: i64) -> nat
    decreases loans.len(),
{
    if loans.len() == 0 {
        0
    } else {
        count_borrowed_by(loans.drop_last(), member_id) + if loans.last().member_id == member_id
            && loans.last().is_borrowed() {
            1nat
        } else {
            0nat
        }
    }
}

/// The abstract contents of the store, as the contracts speak of them.
#[verifier::ext_equal]
pub struct LibState {
    pub books: Seq<Book>,
    pub members: Seq<Member>,
    pub loans: Seq<Loan>,
    pub next_book_id: int,
    pub next_member_id: int,
    pub next_loan_id: int,
}

impl LibState {
    pub open spec fn has_book(self, id: i64) -> bool {
        exists|i: int| 0 <= i < self.books.len() && (#[trigger] self.books[i]).id == id
    }

    pub open spec fn book_at(self, id: i64) -> int {
        choose|i: int| 0 <= i < self.books.len() && (#[trigger] self.books[i]).id == id
    }

    pub open spec fn has_member(self, id: i64) -> bool {
        exists|i: int| 0 <= i < self.members.len() && (#[trigger] self.members[i]).id == id
    }

    pub open spec fn member_at(self, id: i64) -> int {
        choose|i: int| 0 <= i < self.members.len() && (#[trigger] self.members[i]).id == id
    }

    pub open spec fn has_loan(self, id: i64) -> bool {
        exists|i: int| 0 <= i < self.loans.len() && (#[trigger] self.loans[i]).id == id
    }

    pub open spec fn loan_at(self, id: i64) -> int {
        choose|i: int| 0 <= i < self.loans.len() && (#[trigger] self.loans[i]).id == id
    }

    /// The invariants the engine maintains across every operation.
    pub open spec fn wf(self) -> bool {
        &&& 1 <= self.next_book_id
        &&& 1 <= self.next_member_id
        &&& 1 <= self.next_loan_id
        &&& forall|i: int| 0 <= i < self.books.len() ==> (#[trigger] self.books[i]).wf()
        &&& forall|i: int|
            0 <= i < self.books.len() ==> 0 < (#[trigger] self.books[i]).id < self.next_book_id
        &&& forall|i: int, j: int|
            #![trigger self.books[i].id, self.books[j].id]
            0 <= i < j < self.books.len() ==> self.books[i].id != self.books[j].id
        &&& forall|i: int|
            0 <= i < self.members.len() ==> 0 < (#[trigger] self.members[i]).id
                < self.next_member_id
        &&& forall|i: int, j: int|
            #![trigger self.members[i].id, self.members[j].id]
            0 <= i < j < self.members.len() ==> self.members[i].id != self.members[j].id
        &&& forall|i: int| 0 <= i < self.loans.len() ==> (#[trigger] self.loans[i]).wf()
        &&& forall|i: int|
            0 <= i < self.loans.len() ==> 0 < (#[trigger] self.loans[i]).id < self.next_loan_id
        &&& forall|i: int, j: int|
            #![trigger self.loans[i].id, self.loans[j].id]
            0 <= i < j < self.loans.len() ==> self.loans[i].id != self.loans[j].id
        &&& forall|i: int|
            0 <= i < self.loans.len() ==> self.has_book((#[trigger] self.loans[i]).book_id)
        &&& forall|i: int|
            0 <= i < self.books.len() ==> (#[trigger] self.books[i]).available_copy
                + count_borrowed(self.loans, self.books[i].id) == self.books[i].total_copy
    }
}

impl LibState {
    /// The borrow transition: the next state and the result. Checks run in
    /// the order the operation performs them — book presence, stock,
    /// member presence, member standing, loan length — and any failure
    /// leaves the state untouched. On success a new open loan due `days`
    /// days after `now` is inserted and one copy of the book is taken.
    pub open spec fn spec_borrow(self, book_id: i64, member_id: i64, days: i64, now: i64) -> (
        LibState,
        Result<i64, LibError>,
    ) {
        if !self.has_book(book_id) || !self.books[self.book_at(book_id)].is_active() {
            (self, Result::Err(LibError::BookNotFound))
        } else if self.books[self.book_at(book_id)].available_copy <= 0 {
            (self, Result::Err(LibError::OutOfStock))
        } else if !self.has_member(member_id) {
            (self, Result::Err(LibError::MemberNotFound))
        } else if !self.members[self.member_at(member_id)].can_borrow() {
            (self, Result::Err(LibError::MemberInactive))
        } else if days <= 0 {
            (self, Result::Err(LibError::InvalidLoanDays))
        } else {
            let loan = Loan::spec_created(
                self.next_loan_id as i64,
                book_id,
                member_id,
                now,
                days,
            );
            (
                LibState {
                    books: self.books.update(
                        self.book_at(book_id),
                        self.books[self.book_at(book_id)].spec_acquired(),
                    ),
                    loans: self.loans.push(loan),
                    next_loan_id: self.next_loan_id + 1,
                    ..self
                },
                Result::Ok(self.next_loan_id as i64),
            )
        }
    }
}

/// Every borrow keeps the library well formed: in particular, copy counts
/// stay within `0 <= available_copy <= total_copy` and the per-book
/// accounting of open loans stays exact.
pub proof fn lemma_borrow_preserves_wf(
    s: LibState,
    book_id: i64,
    member_id: i64,
    days: i64,
    now: i64,
)
    requires
        s.wf(),
        0 <= now,
        days > 0 ==> now + days * 86400 <= i64::MAX,
        s.next_loan_id < i64::MAX,
    ensures
        s.spec_borrow(book_id, member_id, days, now).0.wf(),
{
    let (s2, r) = s.spec_borrow(book_id, member_id, days, now);
    if r is Ok {
        let bi = s.book_at(book_id);
        let b = s.books[bi];
        let loan = Loan::spec_created(s.next_loan_id as i64, book_id, member_id, now, days);
        assert forall|i: int| 0 <= i < s2.books.len() implies (#[trigger] s2.books[i]).available_copy
            + count_borrowed(s2.loans, s2.books[i].id) == s2.books[i].total_copy by {
            lemma_count_push(s.loans, loan, s2.books[i].id);
        }
        assert forall|i: int| 0 <= i < s2.loans.len() implies s2.has_book(
            (#[trigger] s2.loans[i]).book_id,
        ) by {
            if i < s.loans.len() {
                let w = choose|w: int|
                    0 <= w < s.books.len() && (#[trigger] s.books[w]).id == s.loans[i].book_id;
                assert(s2.books[w].id == s.loans[i].book_id);
            } else {
                assert(s2.books[bi].id == book_id);
            }
        }
    }
}

impl LibState {
    /// The return transition. An unknown loan and a second return fail
    /// without change; otherwise the loan is closed with its fine at `now`
    /// and one copy of its book is put back, the book's status reset to
    /// `Tersedia`.
    pub open spec fn spec_return(self, loan_id: i64, now: i64) -> (
        LibState,
        Result<(), LibError>,
    ) {
        if !self.has_loan(loan_id) {
            (self, Result::Err(LibError::LoanNotFound))
        } else if !self.loans[self.loan_at(loan_id)].is_borrowed() {
            (self, Result::Err(LibError::AlreadyReturned))
        } else {
            let li = self.loan_at(loan_id);
            let bi = self.book_at(self.loans[li].book_id);
            (
                LibState {
                    loans: self.loans.update(li, self.loans[li].spec_closed(now)),
                    books: self.books.update(bi, self.books[bi].spec_released()),
                    ..self
                },
                Result::Ok(()),
            )
        }
    }

    /// The book-deletion transition: soft deletion, blocked entirely while
    /// any loan on the book is still open. Deleting an absent book is a
    /// no-op, as the store's unconditional update makes it.
    pub open spec fn spec_delete_book(self, book_id: i64, now: i64) -> (
        LibState,
        Result<(), LibError>,
    ) {
        if count_borrowed(self.loans, book_id) > 0 {
            (self, Result::Err(LibError::BookHasActiveLoans))
        } else if self.has_book(book_id) {
            let bi = self.book_at(book_id);
            (
                LibState {
                    books: self.books.update(
                        bi,
                        Book { deleted_at: Option::Some(now), ..self.books[bi] },
                    ),
                    ..self
                },
                Result::Ok(()),
            )
        } else {
            (self, Result::Ok(()))
        }
    }

    /// The book the edit `e` turns `b` into: every caller-editable field
    /// replaced, identity, barcode, and deletion stamp kept.
    pub open spec fn spec_edited(b: Book, e: BookEdit) -> Book {
        Book {
            title: e.title,
            author: e.author,
            isbn: e.isbn,
            category: e.category,
            publisher: e.publisher,
            published_year: e.published_year,
            rack_location: e.rack_location,
            total_copy: e.total_copy,
            available_copy: e.available_copy,
            cover: e.cover,
            status: e.status,
            ..b
        }
    }

    /// The book-update transition. Editing an absent book is a no-op. An
    /// edit whose copy counts disagree with the book's open loans is
    /// refused: the store lets such rows drift, but then nothing could keep
    /// every book inside `0 <= available_copy <= total_copy`.
    pub open spec fn spec_update_book(self, book_id: i64, e: BookEdit) -> (
        LibState,
        Result<(), LibError>,
    ) {
        if !self.has_book(book_id) {
            (self, Result::Ok(()))
        } else if !(0 <= e.available_copy && e.available_copy + count_borrowed(self.loans, book_id)
            == e.total_copy) {
            (self, Result::Err(LibError::InvalidCopyCounts))
        } else {
            let bi = self.book_at(book_id);
            (
                LibState {
                    books: self.books.update(bi, LibState::spec_edited(self.books[bi], e)),
                    ..self
                },
                Result::Ok(()),
            )
        }
    }

    /// The member-deletion transition: a soft status flip to `Nonaktif`,
    /// never a removal, so loan history keeps its references.
    pub open spec fn spec_delete_member(self, member_id: i64) -> LibState {
        if self.has_member(member_id) {
            let mi = self.member_at(member_id);
            LibState {
                members: self.members.update(
                    mi,
                    Member { status: MemberStatus::Nonaktif, ..self.members[mi] },
                ),
                ..self
            }
        } else {
            self
        }
    }
}

/// Every return keeps the library well formed: the returned copy fits back
/// under the book's total because the open loan it closes is part of the
/// book's accounting.
pub proof fn lemma_return_preserves_wf(s: LibState, loan_id: i64, now: i64)
    requires
        s.wf(),
        0 <= now,
    ensures
        s.spec_return(loan_id, now).0.wf(),
{
    let (s2, r) = s.spec_return(loan_id, now);
    if r is Ok {
        let li = s.loan_at(loan_id);
        let l = s.loans[li];
        let bi = s.book_at(l.book_id);
        assert(s.has_book(l.book_id));
        lemma_count_at_least_one(s.loans, li, l.book_id);
        assert(l.wf());
        if now > l.due_date {
            let d = now - l.due_date;
            assert(0 <= (d / 86400) * 1000 <= i64::MAX) by (nonlinear_arith)
                requires
                    0 < d <= i64::MAX,
            ;
        }
        assert(l.spec_closed(now).wf());
        assert forall|i: int| 0 <= i < s2.books.len() implies (#[trigger] s2.books[i]).available_copy
            + count_borrowed(s2.loans, s2.books[i].id) == s2.books[i].total_copy by {
            lemma_count_update(s.loans, li, l.spec_closed(now), s2.books[i].id);
        }
        assert forall|i: int| 0 <= i < s2.loans.len() implies s2.has_book(
            (#[trigger] s2.loans[i]).book_id,
        ) by {
            let w = choose|w: int|
                0 <= w < s.books.len() && (#[trigger] s.books[w]).id == s.loans[i].book_id;
            assert(s2.books[w].id == s.loans[i].book_id);
        }
    }
}

/// An accepted edit keeps the library well formed: the copy-count check is
/// exactly what conservation of the book's open loans demands.
pub proof fn lemma_update_book_preserves_wf(s: LibState, book_id: i64, e: BookEdit)
    requires
        s.wf(),
    ensures
        s.spec_update_book(book_id, e).0.wf(),
{
    let (s2, r) = s.spec_update_book(book_id, e);
    if s2 != s {
        assert forall|i: int| 0 <= i < s2.books.len() implies (#[trigger] s2.books[i]).available_copy
            + count_borrowed(s2.loans, s2.books[i].id) == s2.books[i].total_copy by {
            assert(s2.books[i].id == s.books[i].id);
        }
        assert forall|i: int| 0 <= i < s2.loans.len() implies s2.has_book(
            (#[trigger] s2.loans[i]).book_id,
        ) by {
            let w = choose|w: int|
                0 <= w < s.books.len() && (#[trigger] s.books[w]).id == s.loans[i].book_id;
            assert(s2.books[w].id == s.loans[i].book_id);
        }
    }
}

/// Soft deletion changes no copy count and closes no loan, so it keeps the
/// library well formed.
pub proof fn lemma_delete_book_preserves_wf(s: LibState, book_id: i64, now: i64)
    requires
        s.wf(),
    ensures
        s.spec_delete_book(book_id, now).0.wf(),
{
    let (s2, r) = s.spec_delete_book(book_id, now);
    if r is Ok && s.has_book(book_id) {
        assert forall|i: int| 0 <= i < s2.books.len() implies (#[trigger] s2.books[i]).available_copy
            + count_borrowed(s2.loans, s2.books[i].id) == s2.books[i].total_copy by {
            assert(s2.books[i].id == s.books[i].id);
            assert(s2.books[i].available_copy == s.books[i].available_copy);
            assert(s2.books[i].total_copy == s.books[i].total_copy);
        }
        assert forall|i: int| 0 <= i < s2.loans.len() implies s2.has_book(
            (#[trigger] s2.loans[i]).book_id,
        ) by {
            let w = choose|w: int|
                0 <= w < s.books.len() && (#[trigger] s.books[w]).id == s.loans[i].book_id;
            assert(s2.books[w].id == s.loans[i].book_id);
        }
    }
}

/// The in-memory model of the library's records, with the core operations
/// of the loan lifecycle.
pub struct Library {
    pub books: Vec<Book>,
    pub members: Vec<Member>,
    pub loans: Vec<Loan>,
    pub next_book_id: i64,
    pub next_member_id: i64,
    pub next_loan_id: i64,
}

impl View for Library {
    type V = LibState;

    open spec fn view(&self) -> LibState {
        LibState {
            books: self.books@,
            members: self.members@,
            loans: self.loans@,
            next_book_id: self.next_book_id as int,
            next_member_id: self.next_member_id as int,
            next_loan_id: self.next_loan_id as int,
        }
    }
}

impl Library {
    /// An empty library.
    pub fn new() -> (lib: Library)
        ensures
            lib@.books.len() == 0,
            lib@.members.len() == 0,
            lib@.loans.len() == 0,
            lib@.next_book_id == 1,
            lib@.next_member_id == 1,
            lib@.next_loan_id == 1,
            lib@.wf(),
    {
        Library {
            books: Vec::new(),
            members: Vec::new(),
            loans: Vec::new(),
            next_book_id: 1,
            next_member_id: 1,
            next_loan_id: 1,
        }
    }

    /// Empties every table, as the maintenance reset does; row identities
    /// start over.
    pub fn reset(&mut self)
        ensures
            final(self)@.books.len() == 0,
            final(self)@.members.len() == 0,
            final(self)@.loans.len() == 0,
            final(self)@.next_book_id == 1,
            final(self)@.next_member_id == 1,
            final(self)@.next_loan_id == 1,
            final(self)@.wf(),
    {
        self.books.clear();
        self.members.clear();
        self.loans.clear();
        self.next_book_id = 1;
        self.next_member_id = 1;
        self.next_loan_id = 1;
    }

    /// Index of the book with identity `id`, if present.
    fn find_book(&self, id: i64) -> (r: Option<usize>)
        requires
            self@.wf(),
        ensures
            match r {
                Option::Some(i) => self@.has_book(id) && 0 <= i < self@.books.len()
                    && self@.books[i as int].id == id && i as int == self@.book_at(id),
                Option::None => !self@.has_book(id),
            },
    {
        let mut i: usize = 0;
        while i < self.books.len()
            invariant
                0 <= i <= self@.books.len(),
                self@.wf(),
                forall|j: int| 0 <= j < i ==> (#[trigger] self@.books[j]).id != id,
            decreases self@.books.len() - i,
        {
            if self.books[i].id == id {
                proof {
                    let c = self@.book_at(id);
                    assert(0 <= c < self@.books.len() && self@.books[c].id == id);
                }
                return Option::Some(i);
            }
            i = i + 1;
        }
        Option::None
    }

    /// Index of the member with identity `id`, if present.
    fn find_member(&self, id: i64) -> (r: Option<usize>)
        requires
            self@.wf(),
        ensures
            match r {
                Option::Some(i) => self@.has_member(id) && 0 <= i < self@.members.len()
                    && self@.members[i as int].id == id && i as int == self@.member_at(id),
                Option::None => !self@.has_member(id),
            },
    {
        let mut i: usize = 0;
        while i < self.members.len()
            invariant
                0 <= i <= self@.members.len(),
                self@.wf(),
                forall|j: int| 0 <= j < i ==> (#[trigger] self@.members[j]).id != id,
            decreases self@.members.len() - i,
        {
            if self.members[i].id == id {
                proof {
                    let c = self@.member_at(id);
                    assert(0 <= c < self@.members.len() && self@.members[c].id == id);
                }
                return Option::Some(i);
            }
            i = i + 1;
        }
        Option::None
    }

    /// Index of the loan with identity `id`, if present.
    fn find_loan(&self, id: i64) -> (r: Option<usize>)
        requires
            self@.wf(),
        ensures
            match r {
                Option::Some(i) => self@.has_loan(id) && 0 <= i < self@.loans.len()
                    && self@.loans[i as int].id == id && i as int == self@.loan_at(id),
                Option::None => !self@.has_loan(id),
            },
    {
        let mut i: usize = 0;
        while i < self.loans.len()
            invariant
                0 <= i <= self@.loans.len(),
                self@.wf(),
                forall|j: int| 0 <= j < i ==> (#[trigger] self@.loans[j]).id != id,
            decreases self@.loans.len() - i,
        {
            if self.loans[i].id == id {
                proof {
                    let c = self@.loan_at(id);
                    assert(0 <= c < self@.loans.len() && self@.loans[c].id == id);
                }
                return Option::Some(i);
            }
            i = i + 1;
        }
        Option::None
    }

    /// Borrows one copy of a book for a member, due `days` days after
    /// `now`: checks the book exists and has stock and the member exists
    /// and is active, inserts the open loan, and takes one copy, all as one
    /// transition. Returns the new loan's identity; any failure leaves the
    /// library unchanged.
    pub fn borrow_book(&mut self, book_id: i64, member_id: i64, days: i64, now: i64) -> (r:
        Result<i64, LibError>)
        requires
            old(self)@.wf(),
            0 <= now,
            days > 0 ==> now + days * 86400 <= i64::MAX,
            old(self)@.next_loan_id < i64::MAX,
        ensures
            final(self)@ == old(self)@.spec_borrow(book_id, member_id, days, now).0,
            r == old(self)@.spec_borrow(book_id, member_id, days, now).1,
            r is Err ==> final(self)@ == old(self)@,
            final(self)@.wf(),
    {
        proof {
            lemma_borrow_preserves_wf(old(self)@, book_id, member_id, days, now);
        }
        let bi = match self.find_book(book_id) {
            Option::None => {
                return Result::Err(LibError::BookNotFound);
            },
            Option::Some(i) => i,
        };
        if self.books[bi].deleted_at.is_some() {
            return Result::Err(LibError::BookNotFound);
        }
        if self.books[bi].available_copy <= 0 {
            return Result::Err(LibError::OutOfStock);
        }
        let mi = match self.find_member(member_id) {
            Option::None => {
                return Result::Err(LibError::MemberNotFound);
            },
            Option::Some(i) => i,
        };
        if matches!(self.members[mi].status, crate::member::MemberStatus::Nonaktif) {
            return Result::Err(LibError::MemberInactive);
        }
        if days <= 0 {
            return Result::Err(LibError::InvalidLoanDays);
        }
        let loan_id = self.next_loan_id;
        let loan = Loan::create(loan_id, book_id, member_id, now, days);
        self.next_loan_id = self.next_loan_id + 1;
        self.loans.push(loan);
        let taken = self.books[bi].acquire_copy();
        proof {
            assert(taken is Ok);
            assert(final(self)@ =~= old(self)@.spec_borrow(book_id, member_id, days, now).0);
        }
        Result::Ok(loan_id)
    }

    /// Returns a loan: closes it with its fine computed at `now` and puts
    /// one copy of its book back, resetting the book's status to
    /// `Tersedia`. An unknown loan or a second return fails without
    /// change.
    pub fn return_book(&mut self, loan_id: i64, now: i64) -> (r: Result<(), LibError>)
        requires
            old(self)@.wf(),
            0 <= now,
        ensures
            final(self)@ == old(self)@.spec_return(loan_id, now).0,
            r == old(self)@.spec_return(loan_id, now).1,
            r is Err ==> final(self)@ == old(self)@,
            final(self)@.wf(),
    {
        proof {
            lemma_return_preserves_wf(old(self)@, loan_id, now);
        }
        let li = match self.find_loan(loan_id) {
            Option::None => {
                return Result::Err(LibError::LoanNotFound);
            },
            Option::Some(i) => i,
        };
        if matches!(self.loans[li].status, crate::loan::LoanStatus::Returned) {
            return Result::Err(LibError::AlreadyReturned);
        }
        let book_id = self.loans[li].book_id;
        let bi = match self.find_book(book_id) {
            Option::None => {
                proof {
                    assert(false);
                }
                return Result::Err(LibError::LoanNotFound);
            },
            Option::Some(i) => i,
        };
        proof {
            lemma_count_at_least_one(self@.loans, li as int, book_id);
        }
        self.loans[li].close(now);
        self.books[bi].release_copy();
        proof {
            assert(final(self)@ =~= old(self)@.spec_return(loan_id, now).0);
        }
        Result::Ok(())
    }

    /// Edits a book's caller-editable fields. An edit whose copy counts
    /// disagree with the book's open loans is refused with
    /// `InvalidCopyCounts`; an absent book is left alone.
    pub fn update_book(&mut self, book_id: i64, edit: BookEdit) -> (r: Result<(), LibError>)
        requires
            old(self)@.wf(),
        ensures
            final(self)@ == old(self)@.spec_update_book(book_id, edit).0,
            r == old(self)@.spec_update_book(book_id, edit).1,
            r is Err ==> final(self)@ == old(self)@,
            final(self)@.wf(),
    {
        proof {
            lemma_update_book_preserves_wf(old(self)@, book_id, edit);
        }
        let bi = match self.find_book(book_id) {
            Option::None => {
                return Result::Ok(());
            },
            Option::Some(i) => i,
        };
        let open_loans = self.active_loan_count_for_book(book_id);
        let counts_ok = 0 <= edit.available_copy && edit.available_copy <= edit.total_copy && (
        edit.total_copy - edit.available_copy) as u64 == open_loans as u64;
        if !counts_ok {
            return Result::Err(LibError::InvalidCopyCounts);
        }
        let b = &mut self.books[bi];
        b.title = edit.title;
        b.author = edit.author;
        b.isbn = edit.isbn;
        b.category = edit.category;
        b.publisher = edit.publisher;
        b.published_year = edit.published_year;
        b.rack_location = edit.rack_location;
        b.total_copy = edit.total_copy;
        b.available_copy = edit.available_copy;
        b.cover = edit.cover;
        b.status = edit.status;
        proof {
            assert(final(self)@ =~= old(self)@.spec_update_book(book_id, edit).0);
        }
        Result::Ok(())
    }

    /// Soft-deletes a book by stamping its deletion time, blocked entirely
    /// while any loan on it is still open. An absent book is left alone.
    pub fn delete_book(&mut self, book_id: i64, now: i64) -> (r: Result<(), LibError>)
        requires
            old(self)@.wf(),
        ensures
            final(self)@ == old(self)@.spec_delete_book(book_id, now).0,
            r == old(self)@.spec_delete_book(book_id, now).1,
            r is Err ==> final(self)@ == old(self)@,
            final(self)@.wf(),
    {
        proof {
            lemma_delete_book_preserves_wf(old(self)@, book_id, now);
        }
        let open_loans = self.active_loan_count_for_book(book_id);
        if open_loans > 0 {
            return Result::Err(LibError::BookHasActiveLoans);
        }
        match self.find_book(book_id) {
            Option::Some(bi) => {
                let b = &mut self.books[bi];
                b.deleted_at = Option::Some(now);
                proof {
                    assert(final(self)@ =~= old(self)@.spec_delete_book(book_id, now).0);
                }
            },
            Option::None => {
                proof {
                    assert(final(self)@ =~= old(self)@.spec_delete_book(book_id, now).0);
                }
            },
        }
        Result::Ok(())
    }

    /// Soft-deletes a member: flips the status to `Nonaktif`, preserving
    /// the member row and its loan history. An absent member is left
    /// alone.
    pub fn delete_member(&mut self, member_id: i64)
        requires
            old(self)@.wf(),
        ensures
            final(self)@ == old(self)@.spec_delete_member(member_id),
            final(self)@.wf(),
    {
        match self.find_member(member_id) {
            Option::Some(mi) => {
                let m = &mut self.members[mi];
                m.status = MemberStatus::Nonaktif;
                proof {
                    assert(final(self)@ =~= old(self)@.spec_delete_member(member_id));
                }
            },
            Option::None => {
            },
        }
    }

    /// Adds a book: assigns it the next identity and the barcode
    /// `B-<year>-<id>`, starts it with every copy available, and defaults
    /// a missing status to `Tersedia`. Returns the new identity.
    pub fn add_book(&mut self, new: NewBook, year: u64) -> (id: i64)
        requires
            old(self)@.wf(),
            old(self)@.next_book_id < i64::MAX,
            0 <= new.total_copy,
        ensures
            id == old(self)@.next_book_id,
            final(self)@.books == old(self)@.books.push(final(self)@.books.last()),
            final(self)@.members == old(self)@.members,
            final(self)@.loans == old(self)@.loans,
            final(self)@.next_book_id == old(self)@.next_book_id + 1,
            final(self)@.next_member_id == old(self)@.next_member_id,
            final(self)@.next_loan_id == old(self)@.next_loan_id,
            ({
                let b = final(self)@.books.last();
                b.id == id && b.title == new.title && b.author == new.author && b.isbn == new.isbn
                    && b.category == new.category && b.publisher == new.publisher
                    && b.published_year == new.published_year && b.rack_location
                    == new.rack_location && b.cover == new.cover && b.total_copy == new.total_copy
                    && b.available_copy == new.total_copy && b.status == (match new.status {
                    Option::Some(st) => st,
                    Option::None => BookStatus::Tersedia,
                }) && b.deleted_at is None && b.barcode@ == spec_barcode(year as nat, id as nat)
            }),
            final(self)@.wf(),
    {
        let id = self.next_book_id;
        let barcode = book_barcode(year, id as u64);
        let book = Book {
            id,
            title: new.title,
            author: new.author,
            isbn: new.isbn,
            category: new.category,
            publisher: new.publisher,
            published_year: new.published_year,
            rack_location: new.rack_location,
            barcode,
            total_copy: new.total_copy,
            available_copy: new.total_copy,
            cover: new.cover,
            status: match new.status {
                Option::Some(st) => st,
                Option::None => BookStatus::Tersedia,
            },
            deleted_at: Option::None,
        };
        self.next_book_id = self.next_book_id + 1;
        self.books.push(book);
        proof {
            assert forall|j: int| 0 <= j < self@.loans.len() implies (#[trigger] self@.loans[j]).book_id
                != id by {
                let w = choose|w: int|
                    0 <= w < old(self)@.books.len() && (#[trigger] old(self)@.books[w]).id
                        == self@.loans[j].book_id;
                assert(old(self)@.books[w].id < id);
            }
            lemma_count_absent(self@.loans, id);
            assert forall|i: int| 0 <= i < self@.loans.len() implies self@.has_book(
                (#[trigger] self@.loans[i]).book_id,
            ) by {
                let w = choose|w: int|
                    0 <= w < old(self)@.books.len() && (#[trigger] old(self)@.books[w]).id
                        == self@.loans[i].book_id;
                assert(self@.books[w].id == self@.loans[i].book_id);
            }
        }
        id
    }

    /// The next member code of `year`: finds the lexicographically
    /// greatest stored code beginning with `MBR-<year>` and counts on from
    /// its numeric suffix, starting at one when the year has no code yet.
    pub fn generate_member_code(&self, year: u64) -> (code: String)
        ensures
            code@ == spec_member_code(
                year as nat,
                spec_next_seq(spec_max_code(self@.members, spec_year_prefix(year as nat))),
            ),
    {
        let prefix = render_year_prefix(year);
        let mut best: Option<String> = Option::None;
        let mut i: usize = 0;
        proof {
            assert(self@.members.subrange(0, 0) =~= Seq::<Member>::empty());
        }
        while i < self.members.len()
            invariant
                0 <= i <= self@.members.len(),
                prefix@ == spec_year_prefix(year as nat),
                match best {
                    Option::Some(b) => spec_max_code(self@.members.subrange(0, i as int), prefix@)
                        == Option::Some(b@),
                    Option::None => spec_max_code(self@.members.subrange(0, i as int), prefix@)
                        is None,
                },
            decreases self@.members.len() - i,
        {
            let ghost pre = self@.members.subrange(0, i as int);
            let ghost extended = self@.members.subrange(0, i as int + 1);
            proof {
                assert(extended.drop_last() =~= pre);
                assert(extended.last() == self@.members[i as int]);
            }
            let candidate = &self.members[i].member_code;
            if str_starts_with(candidate.as_str(), prefix.as_str()) {
                let better = match &best {
                    Option::None => true,
                    Option::Some(b) => str_lex_lt(b.as_str(), candidate.as_str()),
                };
                if better {
                    best = Option::Some(candidate.clone());
                }
            }
            i = i + 1;
        }
        proof {
            assert(self@.members.subrange(0, self@.members.len() as int) =~= self@.members);
        }
        match &best {
            Option::None => next_member_code(year, Option::None),
            Option::Some(b) => next_member_code(year, Option::Some(b.as_str())),
        }
    }

    /// Registers a member: uses the supplied code unless it is blank, else
    /// generates the next code of `year`; a missing status defaults to
    /// `Aktif`. Returns the new identity.
    pub fn add_member(&mut self, new: NewMember, year: u64) -> (id: i64)
        requires
            old(self)@.wf(),
            old(self)@.next_member_id < i64::MAX,
        ensures
            id == old(self)@.next_member_id,
            final(self)@.members == old(self)@.members.push(final(self)@.members.last()),
            final(self)@.books == old(self)@.books,
            final(self)@.loans == old(self)@.loans,
            final(self)@.next_member_id == old(self)@.next_member_id + 1,
            final(self)@.next_book_id == old(self)@.next_book_id,
            final(self)@.next_loan_id == old(self)@.next_loan_id,
            ({
                let m = final(self)@.members.last();
                m.id == id && m.name == new.name && m.email == new.email && m.phone == new.phone
                    && m.kelas == new.kelas && m.jenis_kelamin == new.jenis_kelamin && m.status
                    == (match new.status {
                    Option::Some(st) => st,
                    Option::None => MemberStatus::Aktif,
                }) && m.member_code@ == spec_chosen_member_code(
                    match new.member_code {
                        Option::Some(c) => Option::Some(c@),
                        Option::None => Option::None,
                    },
                    old(self)@.members,
                    year as nat,
                )
            }),
            final(self)@.wf(),
    {
        let code: String = match new.member_code {
            Option::Some(c) => {
                if str_is_blank(c.as_str()) {
                    self.generate_member_code(year)
                } else {
                    c
                }
            },
            Option::None => self.generate_member_code(year),
        };
        let id = self.next_member_id;
        let member = Member {
            id,
            member_code: code,
            name: new.name,
            email: new.email,
            phone: new.phone,
            kelas: new.kelas,
            jenis_kelamin: new.jenis_kelamin,
            status: match new.status {
                Option::Some(st) => st,
                Option::None => MemberStatus::Aktif,
            },
        };
        self.next_member_id = self.next_member_id + 1;
        self.members.push(member);
        id
    }

    /// Number of open loans on the book with identity `book_id`, as the
    /// deletion guard counts them.
    pub fn active_loan_count_for_book(&self, book_id: i64) -> (n: usize)
        ensures
            n == count_borrowed(self@.loans, book_id),
    {
        let mut n: usize = 0;
        let mut i: usize = 0;
        proof {
            assert(self@.loans.subrange(0, 0) =~= Seq::<Loan>::empty());
        }
        while i < self.loans.len()
            invariant
                0 <= i <= self@.loans.len(),
                n <= i,
                n == count_borrowed(self@.loans.subrange(0, i as int), book_id),
            decreases self@.loans.len() - i,
        {
            let ghost prefix = self@.loans.subrange(0, i as int);
            let ghost extended = self@.loans.subrange(0, i as int + 1);
            proof {
                assert(extended.drop_last() =~= prefix);
                assert(extended.last() == self@.loans[i as int]);
            }
            let l = &self.loans[i];
            if l.book_id == book_id && matches!(l.status, crate::loan::LoanStatus::Borrowed) {
                n = n + 1;
            }
            i = i + 1;
        }
        proof {
            assert(self@.loans.subrange(0, self@.loans.len() as int) =~= self@.loans);
        }
        n
    }

    /// Number of open loans held by the member with identity `member_id`,
    /// as the circulation views report it.
    pub fn get_member_active_loan_count(&self, member_id: i64) -> (n: usize)
        ensures
            n == count_borrowed_by(self@.loans, member_id),
    {
        let mut n: usize = 0;
        let mut i: usize = 0;
        proof {
            assert(self@.loans.subrange(0, 0) =~= Seq::<Loan>::empty());
        }
        while i < self.loans.len()
            invariant
                0 <= i <= self@.loans.len(),
                n <= i,
                n == count_borrowed_by(self@.loans.subrange(0, i as int), member_id),
            decreases self@.loans.len() - i,
        {
            let ghost prefix = self@.loans.subrange(0, i as int);
            let ghost extended = self@.loans.subrange(0, i as int + 1);
            proof {
                assert(extended.drop_last() =~= prefix);
                assert(extended.last() == self@.loans[i as int]);
            }
            let l = &self.loans[i];
            if l.member_id == member_id && matches!(l.status, crate::loan::LoanStatus::Borrowed) {
                n = n + 1;
            }
            i = i + 1;
        }
        proof {
            assert(self@.loans.subrange(0, self@.loans.len() as int) =~= self@.loans);
        }
        n
    }
}

} // verus!
