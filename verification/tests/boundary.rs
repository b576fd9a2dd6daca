use pustaka::book::BookStatus;
use pustaka::clock::current_time_and_year;
use pustaka::errors::LibError;
use pustaka::loan::LoanStatus;
use pustaka::member::MemberStatus;
use pustaka::reports::{member_activity_status, weekday_index, weekday_name, weekly_circulation};
use pustaka::text::{str_eq, str_is_blank, str_lex_lt, str_starts_with};
use pustaka::users::password_change_check;

#[test]
fn every_error_condition_keeps_its_own_message() {
    let all = [
        LibError::BookNotFound,
        LibError::OutOfStock,
        LibError::BookUnavailable,
        LibError::MemberNotFound,
        LibError::MemberInactive,
        LibError::InvalidLoanDays,
        LibError::InvalidCopyCounts,
        LibError::LoanNotFound,
        LibError::AlreadyReturned,
        LibError::BookHasActiveLoans,
        LibError::WrongPassword,
    ];
    for (i, a) in all.iter().enumerate() {
        for (j, b) in all.iter().enumerate() {
            assert_eq!(i == j, a.message() == b.message());
        }
    }
}

#[test]
fn messages_match_the_store_wording() {
    assert_eq!(LibError::BookNotFound.message(), "Buku tidak ditemukan");
    assert_eq!(LibError::OutOfStock.message(), "Stok buku habis");
    assert_eq!(LibError::MemberNotFound.message(), "Member tidak ditemukan");
    assert_eq!(
        LibError::MemberInactive.message(),
        "Anggota berstatus Nonaktif tidak dapat meminjam buku"
    );
    assert_eq!(LibError::LoanNotFound.message(), "Loan record not found");
    assert_eq!(LibError::AlreadyReturned.message(), "Book already returned");
    assert_eq!(LibError::BookHasActiveLoans.message(), "Buku masih sedang dipinjam");
    assert_eq!(LibError::WrongPassword.message(), "Kata sandi lama salah");
    assert_eq!(
        LibError::BookUnavailable.message(),
        "Buku sedang tidak tersedia (Non-Aktif)"
    );
}

#[test]
fn status_labels_match_the_store_wording() {
    assert_eq!(BookStatus::Tersedia.label(), "Tersedia");
    assert_eq!(BookStatus::Dipinjam.label(), "Dipinjam");
    assert_eq!(BookStatus::TidakTersedia.label(), "Tidak Tersedia");
    assert_eq!(MemberStatus::Aktif.label(), "Aktif");
    assert_eq!(MemberStatus::Nonaktif.label(), "Nonaktif");
    assert_eq!(LoanStatus::Borrowed.label(), "borrowed");
    assert_eq!(LoanStatus::Returned.label(), "returned");
}

#[test]
fn password_check_demands_an_exact_match() {
    assert_eq!(password_change_check("admin123", "admin123"), Ok(()));
    assert_eq!(password_change_check("admin123", "admin124"), Err(LibError::WrongPassword));
    assert_eq!(password_change_check("admin123", ""), Err(LibError::WrongPassword));
}

#[test]
fn activity_status_turns_inactive_after_thirty_days() {
    let now = 1_700_000_000;
    let day = 86400;
    assert_eq!(member_activity_status(Some(now - 5 * day), now), "Active");
    assert_eq!(member_activity_status(Some(now - 30 * day), now), "Active");
    assert_eq!(member_activity_status(Some(now - 31 * day), now), "Inactive");
    assert_eq!(member_activity_status(None, now), "Inactive");
}

#[test]
fn string_helpers_agree_with_the_standard_library() {
    assert!(str_eq("Nonaktif", "Nonaktif"));
    assert!(!str_eq("Nonaktif", "Aktif"));
    assert!(str_starts_with("MBR-2024-0001", "MBR-2024"));
    assert!(!str_starts_with("MBR-2023-0001", "MBR-2024"));
    assert!(!str_starts_with("MBR", "MBR-2024"));
    assert!(str_is_blank("  \t\n"));
    assert!(str_is_blank(""));
    assert!(!str_is_blank(" x "));
}

#[test]
fn lexicographic_order_matches_the_store_sort() {
    let mut codes = ["MBR-2024-0012", "MBR-2024-0007", "MBR-2024-0019"];
    codes.sort();
    assert!(str_lex_lt(codes[0], codes[1]));
    assert!(str_lex_lt(codes[1], codes[2]));
    assert!(!str_lex_lt(codes[2], codes[0]));
    assert!(!str_lex_lt("same", "same"));
    assert!(str_lex_lt("abc", "abcd"));
}

#[test]
fn the_clock_reports_a_post_epoch_time_and_its_year() {
    let (now, year) = current_time_and_year();
    assert!(now > 1_700_000_000);
    assert!((2024..3000).contains(&year));
    let (later, _) = current_time_and_year();
    assert!(later >= now);
}

#[test]
fn weekday_numbering_matches_the_store_convention() {
    // The epoch, 1970-01-01, was a Thursday.
    assert_eq!(weekday_index(0), 4);
    assert_eq!(weekday_name(4), "Kamis");
    // 2023-11-14 was a Tuesday.
    assert_eq!(weekday_index(1_700_000_000), 2);
    assert_eq!(weekday_name(2), "Selasa");
    assert_eq!(weekday_name(0), "Minggu");
    assert_eq!(weekday_name(6), "Sabtu");
}

#[test]
fn weekly_circulation_buckets_loans_by_weekday() {
    let day = 86400;
    // One Thursday, one Friday, one Sunday, one Tuesday.
    let dates = vec![0, day, 3 * day, 12 * day + 7200];
    let counts = weekly_circulation(&dates);
    assert_eq!(counts, vec![1, 0, 1, 0, 1, 1, 0]);
}
