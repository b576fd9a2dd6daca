use pustaka::book::{Book, BookEdit, BookStatus, NewBook};
use pustaka::errors::LibError;
use pustaka::library::Library;
use pustaka::member::{MemberStatus, NewMember};

const YEAR: u64 = 2024;

fn member_input(name: &str, code: Option<&str>) -> NewMember {
    NewMember {
        member_code: code.map(|c| c.to_string()),
        name: name.to_string(),
        email: None,
        phone: None,
        kelas: None,
        jenis_kelamin: None,
        status: None,
    }
}

#[test]
fn generated_codes_count_up_within_a_year() {
    let mut lib = Library::new();
    lib.add_member(member_input("Andi", None), YEAR);
    assert_eq!(lib.members[0].member_code, "MBR-2024-0001");
    lib.add_member(member_input("Budi", None), YEAR);
    assert_eq!(lib.members[1].member_code, "MBR-2024-0002");
}

#[test]
fn generation_scans_only_codes_of_the_given_year() {
    let mut lib = Library::new();
    lib.add_member(member_input("Old", Some("MBR-2023-0042")), YEAR);
    assert_eq!(lib.generate_member_code(2024), "MBR-2024-0001");
    assert_eq!(lib.generate_member_code(2023), "MBR-2023-0043");
}

#[test]
fn generation_takes_the_lexicographically_greatest_code() {
    let mut lib = Library::new();
    lib.add_member(member_input("A", Some("MBR-2024-0007")), YEAR);
    lib.add_member(member_input("B", Some("MBR-2024-0019")), YEAR);
    lib.add_member(member_input("C", Some("MBR-2024-0012")), YEAR);
    assert_eq!(lib.generate_member_code(2024), "MBR-2024-0020");
}

#[test]
fn malformed_greatest_code_falls_back_to_one() {
    let mut lib = Library::new();
    // The lexicographic maximum of the year sorts above every digit and
    // does not parse, so the sequence restarts at one.
    lib.add_member(member_input("A", Some("MBR-2024-X")), YEAR);
    lib.add_member(member_input("B", Some("MBR-2024-0031")), YEAR);
    assert_eq!(lib.generate_member_code(2024), "MBR-2024-0001");
}

#[test]
fn a_supplied_code_is_kept_but_a_blank_one_is_replaced() {
    let mut lib = Library::new();
    lib.add_member(member_input("Citra", Some("CUSTOM-77")), YEAR);
    assert_eq!(lib.members[0].member_code, "CUSTOM-77");
    lib.add_member(member_input("Dewi", Some("   ")), YEAR);
    assert_eq!(lib.members[1].member_code, "MBR-2024-0001");
}

#[test]
fn member_status_defaults_to_aktif() {
    let mut lib = Library::new();
    lib.add_member(member_input("Eka", None), YEAR);
    assert_eq!(lib.members[0].status, MemberStatus::Aktif);
}

fn shelf_book(available: i64, status: BookStatus) -> Book {
    Book {
        id: 1,
        title: "Judul".to_string(),
        author: "Penulis".to_string(),
        isbn: "978-1".to_string(),
        category: None,
        publisher: None,
        published_year: None,
        rack_location: None,
        barcode: "B-2024-0001".to_string(),
        total_copy: 3,
        available_copy: available,
        cover: None,
        status,
        deleted_at: None,
    }
}

#[test]
fn screening_rejects_exhausted_then_unavailable_books() {
    assert_eq!(shelf_book(0, BookStatus::Tersedia).screen_for_loan(), Err(LibError::OutOfStock));
    assert_eq!(
        shelf_book(2, BookStatus::TidakTersedia).screen_for_loan(),
        Err(LibError::BookUnavailable)
    );
    assert_eq!(shelf_book(2, BookStatus::Tersedia).screen_for_loan(), Ok(()));
    // Stock wins over the manual marking when both hold.
    assert_eq!(
        shelf_book(0, BookStatus::TidakTersedia).screen_for_loan(),
        Err(LibError::OutOfStock)
    );
}

#[test]
fn acquire_and_release_on_a_single_row() {
    let mut b = shelf_book(1, BookStatus::Tersedia);
    assert_eq!(b.acquire_copy(), Ok(()));
    assert_eq!(b.available_copy, 0);
    assert_eq!(b.status, BookStatus::Dipinjam);
    assert_eq!(b.acquire_copy(), Err(LibError::OutOfStock));

    b.release_copy();
    assert_eq!(b.available_copy, 1);
    assert_eq!(b.status, BookStatus::Tersedia);

    b.deleted_at = Some(100);
    assert_eq!(b.acquire_copy(), Err(LibError::BookNotFound));
    assert_eq!(b.available_copy, 1);
}

fn book_input(title: &str, total_copy: i64) -> NewBook {
    NewBook {
        title: title.to_string(),
        author: "Author".to_string(),
        isbn: "978-000".to_string(),
        category: None,
        publisher: None,
        published_year: None,
        rack_location: None,
        total_copy,
        cover: None,
        status: None,
    }
}

fn edit_of(title: &str, total: i64, available: i64) -> BookEdit {
    BookEdit {
        title: title.to_string(),
        author: "Author".to_string(),
        isbn: "978-000".to_string(),
        category: Some("Novel".to_string()),
        publisher: None,
        published_year: Some(2001),
        rack_location: None,
        total_copy: total,
        available_copy: available,
        cover: None,
        status: BookStatus::Tersedia,
    }
}

#[test]
fn update_book_replaces_editable_fields() {
    let mut lib = Library::new();
    let id = lib.add_book(book_input("Lama", 2), YEAR);
    assert_eq!(lib.update_book(id, edit_of("Baru", 5, 5)), Ok(()));
    let b = &lib.books[0];
    assert_eq!(b.title, "Baru");
    assert_eq!(b.total_copy, 5);
    assert_eq!(b.available_copy, 5);
    assert_eq!(b.barcode, "B-2024-0001");
}

#[test]
fn update_book_refuses_counts_that_contradict_open_loans() {
    let mut lib = Library::new();
    let id = lib.add_book(book_input("Lama", 2), YEAR);
    let member_id = lib.add_member(member_input("Nia", None), YEAR);
    lib.borrow_book(id, member_id, 7, 1_700_000_000).expect("borrow");

    assert_eq!(lib.update_book(id, edit_of("Baru", 5, 5)), Err(LibError::InvalidCopyCounts));
    assert_eq!(lib.update_book(id, edit_of("Baru", 2, -1)), Err(LibError::InvalidCopyCounts));
    assert_eq!(lib.books[0].title, "Lama");

    // One loan is out, so five total copies leave four on the shelf.
    assert_eq!(lib.update_book(id, edit_of("Baru", 5, 4)), Ok(()));
    assert_eq!(lib.books[0].available_copy, 4);
}

#[test]
fn updating_an_absent_book_is_a_quiet_no_op() {
    let mut lib = Library::new();
    assert_eq!(lib.update_book(9, edit_of("X", 1, 1)), Ok(()));
    assert!(lib.books.is_empty());
}
