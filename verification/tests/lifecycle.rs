use pustaka::book::{BookStatus, NewBook};
use pustaka::errors::LibError;
use pustaka::library::Library;
use pustaka::loan::LoanStatus;
use pustaka::member::{MemberStatus, NewMember};

const DAY: i64 = 86400;
const NOW: i64 = 1_700_000_000;
const YEAR: u64 = 2024;

fn new_book(title: &str, total_copy: i64) -> NewBook {
    NewBook {
        title: title.to_string(),
        author: "Author".to_string(),
        isbn: "978-000".to_string(),
        category: None,
        publisher: None,
        published_year: Some(2020),
        rack_location: None,
        total_copy,
        cover: None,
        status: None,
    }
}

fn new_member(name: &str, code: Option<&str>, status: Option<MemberStatus>) -> NewMember {
    NewMember {
        member_code: code.map(|c| c.to_string()),
        name: name.to_string(),
        email: None,
        phone: None,
        kelas: None,
        jenis_kelamin: None,
        status,
    }
}

#[test]
fn full_borrow_scenario_on_two_copies() {
    let mut lib = Library::new();
    let book_id = lib.add_book(new_book("Laskar Pelangi", 2), YEAR);
    let m1 = lib.add_member(new_member("Andi", None, None), YEAR);
    let m2 = lib.add_member(new_member("Budi", None, None), YEAR);

    let loan1 = lib.borrow_book(book_id, m1, 7, NOW).expect("first borrow");
    assert_eq!(lib.books[0].available_copy, 1);
    assert_eq!(lib.books[0].status, BookStatus::Tersedia);

    lib.borrow_book(book_id, m2, 7, NOW).expect("second borrow");
    assert_eq!(lib.books[0].available_copy, 0);
    assert_eq!(lib.books[0].status, BookStatus::Dipinjam);

    let third = lib.borrow_book(book_id, m1, 7, NOW);
    assert_eq!(third, Err(LibError::OutOfStock));
    assert_eq!(lib.books[0].available_copy, 0);

    lib.return_book(loan1, NOW + DAY).expect("return");
    assert_eq!(lib.books[0].available_copy, 1);
    assert_eq!(lib.books[0].status, BookStatus::Tersedia);
}

#[test]
fn borrow_and_return_restore_the_available_count() {
    let mut lib = Library::new();
    let book_id = lib.add_book(new_book("Bumi Manusia", 3), YEAR);
    let member_id = lib.add_member(new_member("Citra", None, None), YEAR);
    assert_eq!(lib.books[0].available_copy, 3);

    let loan_id = lib.borrow_book(book_id, member_id, 14, NOW).expect("borrow");
    assert_eq!(lib.books[0].available_copy, 2);
    assert_eq!(lib.loans[0].status, LoanStatus::Borrowed);
    assert_eq!(lib.loans[0].due_date, NOW + 14 * DAY);

    lib.return_book(loan_id, NOW + 2 * DAY).expect("return");
    assert_eq!(lib.books[0].available_copy, 3);
    assert_eq!(lib.loans[0].status, LoanStatus::Returned);
    assert_eq!(lib.loans[0].return_date, Some(NOW + 2 * DAY));
    assert_eq!(lib.loans[0].fine_amount, 0);
}

#[test]
fn second_return_fails_and_does_not_double_increment() {
    let mut lib = Library::new();
    let book_id = lib.add_book(new_book("Pulang", 1), YEAR);
    let member_id = lib.add_member(new_member("Dewi", None, None), YEAR);
    let loan_id = lib.borrow_book(book_id, member_id, 7, NOW).expect("borrow");
    lib.return_book(loan_id, NOW + DAY).expect("first return");
    assert_eq!(lib.books[0].available_copy, 1);

    let again = lib.return_book(loan_id, NOW + 2 * DAY);
    assert_eq!(again, Err(LibError::AlreadyReturned));
    assert_eq!(lib.books[0].available_copy, 1);
    assert_eq!(lib.loans[0].return_date, Some(NOW + DAY));
}

#[test]
fn late_return_records_the_fine_on_the_loan() {
    let mut lib = Library::new();
    let book_id = lib.add_book(new_book("Senja", 1), YEAR);
    let member_id = lib.add_member(new_member("Eka", None, None), YEAR);
    let loan_id = lib.borrow_book(book_id, member_id, 7, NOW).expect("borrow");
    lib.return_book(loan_id, NOW + 10 * DAY).expect("return");
    assert_eq!(lib.loans[0].fine_amount, 3 * 1000);
}

#[test]
fn borrowing_an_unknown_or_deleted_book_is_not_found() {
    let mut lib = Library::new();
    let member_id = lib.add_member(new_member("Fajar", None, None), YEAR);
    assert_eq!(lib.borrow_book(99, member_id, 7, NOW), Err(LibError::BookNotFound));

    let book_id = lib.add_book(new_book("Hilang", 1), YEAR);
    lib.delete_book(book_id, NOW).expect("delete");
    assert_eq!(lib.borrow_book(book_id, member_id, 7, NOW), Err(LibError::BookNotFound));
}

#[test]
fn borrowing_for_a_missing_or_inactive_member_fails() {
    let mut lib = Library::new();
    let book_id = lib.add_book(new_book("Rindu", 1), YEAR);
    assert_eq!(lib.borrow_book(book_id, 42, 7, NOW), Err(LibError::MemberNotFound));

    let inactive = lib.add_member(new_member("Gita", None, Some(MemberStatus::Nonaktif)), YEAR);
    assert_eq!(lib.borrow_book(book_id, inactive, 7, NOW), Err(LibError::MemberInactive));
    assert_eq!(lib.books[0].available_copy, 1);
}

#[test]
fn non_positive_loan_days_are_rejected() {
    let mut lib = Library::new();
    let book_id = lib.add_book(new_book("Sabtu", 1), YEAR);
    let member_id = lib.add_member(new_member("Hana", None, None), YEAR);
    assert_eq!(lib.borrow_book(book_id, member_id, 0, NOW), Err(LibError::InvalidLoanDays));
    assert_eq!(lib.borrow_book(book_id, member_id, -3, NOW), Err(LibError::InvalidLoanDays));
    assert_eq!(lib.books[0].available_copy, 1);
}

#[test]
fn returning_an_unknown_loan_is_not_found() {
    let mut lib = Library::new();
    assert_eq!(lib.return_book(5, NOW), Err(LibError::LoanNotFound));
}

#[test]
fn a_book_with_an_open_loan_cannot_be_deleted() {
    let mut lib = Library::new();
    let book_id = lib.add_book(new_book("Tetralogi", 2), YEAR);
    let member_id = lib.add_member(new_member("Indra", None, None), YEAR);
    let loan_id = lib.borrow_book(book_id, member_id, 7, NOW).expect("borrow");

    assert_eq!(lib.delete_book(book_id, NOW), Err(LibError::BookHasActiveLoans));
    assert_eq!(lib.books[0].deleted_at, None);

    lib.return_book(loan_id, NOW + DAY).expect("return");
    lib.delete_book(book_id, NOW + DAY).expect("delete after return");
    assert_eq!(lib.books[0].deleted_at, Some(NOW + DAY));
}

#[test]
fn deleting_an_absent_book_is_a_quiet_no_op() {
    let mut lib = Library::new();
    assert_eq!(lib.delete_book(7, NOW), Ok(()));
    assert!(lib.books.is_empty());
}

#[test]
fn return_overwrites_a_manual_not_available_status() {
    let mut lib = Library::new();
    let book_id = lib.add_book(new_book("Langit", 2), YEAR);
    let member_id = lib.add_member(new_member("Joko", None, None), YEAR);
    let loan_id = lib.borrow_book(book_id, member_id, 7, NOW).expect("borrow");

    // The librarian marks the title unavailable while a copy is out; the
    // return still forces it back to Tersedia, as the store does.
    lib.books[0].status = BookStatus::TidakTersedia;
    lib.return_book(loan_id, NOW + DAY).expect("return");
    assert_eq!(lib.books[0].status, BookStatus::Tersedia);
}

#[test]
fn member_deletion_is_a_soft_status_flip() {
    let mut lib = Library::new();
    let member_id = lib.add_member(new_member("Kartika", None, None), YEAR);
    lib.delete_member(member_id);
    assert_eq!(lib.members[0].status, MemberStatus::Nonaktif);
    assert_eq!(lib.members.len(), 1);
}

#[test]
fn active_loan_counts_follow_the_lifecycle() {
    let mut lib = Library::new();
    let b1 = lib.add_book(new_book("Satu", 2), YEAR);
    let b2 = lib.add_book(new_book("Dua", 2), YEAR);
    let member_id = lib.add_member(new_member("Lina", None, None), YEAR);
    let l1 = lib.borrow_book(b1, member_id, 7, NOW).expect("borrow");
    lib.borrow_book(b2, member_id, 7, NOW).expect("borrow");

    assert_eq!(lib.active_loan_count_for_book(b1), 1);
    assert_eq!(lib.get_member_active_loan_count(member_id), 2);

    lib.return_book(l1, NOW + DAY).expect("return");
    assert_eq!(lib.active_loan_count_for_book(b1), 0);
    assert_eq!(lib.get_member_active_loan_count(member_id), 1);
}

#[test]
fn reset_empties_every_table() {
    let mut lib = Library::new();
    let book_id = lib.add_book(new_book("Tiga", 1), YEAR);
    let member_id = lib.add_member(new_member("Mira", None, None), YEAR);
    let loan_id = lib.borrow_book(book_id, member_id, 7, NOW).expect("borrow");
    lib.return_book(loan_id, NOW).expect("return");

    lib.reset();
    assert!(lib.books.is_empty());
    assert!(lib.members.is_empty());
    assert!(lib.loans.is_empty());

    let again = lib.add_book(new_book("Empat", 1), YEAR);
    assert_eq!(again, 1);
}

#[test]
fn add_book_assigns_identity_barcode_and_full_stock() {
    let mut lib = Library::new();
    let id = lib.add_book(new_book("Lima", 4), YEAR);
    assert_eq!(id, 1);
    let b = &lib.books[0];
    assert_eq!(b.barcode, "B-2024-0001");
    assert_eq!(b.total_copy, 4);
    assert_eq!(b.available_copy, 4);
    assert_eq!(b.status, BookStatus::Tersedia);
    assert_eq!(b.deleted_at, None);
}
