//! Error taxonomy of the core operations.
//!
//! Every failure is surfaced as a typed condition, and each condition maps
//! one-to-one to a human-readable message so the boundary caller can react
//! specifically.

use vstd::prelude::*;

verus! {

/// A failed core operation, by condition: absences, conflicts, and input
/// validation.
#[derive(Clone, Copy, Debug, PartialEq, Eq, Structural)]
pub enum LibError {
    /// The book is absent or soft-deleted.
    BookNotFound,
    /// The book has no available copy left.
    OutOfStock,
    /// The book is manually marked not available.
    BookUnavailable,
    /// The member is absent.
    MemberNotFound,
    /// The member is inactive and blocked from borrowing.
    MemberInactive,
    /// The requested loan length is not a positive number of days.
    InvalidLoanDays,
    /// An edit's copy counts contradict the book's open loans.
    InvalidCopyCounts,
    /// The loan is absent.
    LoanNotFound,
    /// The loan was already returned once.
    AlreadyReturned,
    /// The book still has a loan out and cannot be deleted.
    BookHasActiveLoans,
    /// The supplied current password does not match the stored one.
    WrongPassword,
}

impl LibError {
    /// The message shown for this condition.
    pub open spec fn spec_message(self) -> Seq<char> {
        match self {
            LibError::BookNotFound => "Buku tidak ditemukan"@,
            LibError::OutOfStock => "Stok buku habis"@,
            LibError::BookUnavailable => "Buku sedang tidak tersedia (Non-Aktif)"@,
            LibError::MemberNotFound => "Member tidak ditemukan"@,
            LibError::MemberInactive => "Anggota berstatus Nonaktif tidak dapat meminjam buku"@,
            LibError::InvalidLoanDays => "Lama peminjaman harus lebih dari nol hari"@,
            LibError::InvalidCopyCounts => "Jumlah salinan tidak sesuai dengan peminjaman aktif"@,
            LibError::LoanNotFound => "Loan record not found"@,
            LibError::AlreadyReturned => "Book already returned"@,
            LibError::BookHasActiveLoans => "Buku masih sedang dipinjam"@,
            LibError::WrongPassword => "Kata sandi lama salah"@,
        }
    }

    /// The human-readable message for this condition; distinct per variant.
    pub fn message(&self) -> (msg: &'static str)
        ensures
            msg@ == self.spec_message(),
    {
        match self {
            LibError::BookNotFound => "Buku tidak ditemukan",
            LibError::OutOfStock => "Stok buku habis",
            LibError::BookUnavailable => "Buku sedang tidak tersedia (Non-Aktif)",
            LibError::MemberNotFound => "Member tidak ditemukan",
            LibError::MemberInactive => "Anggota berstatus Nonaktif tidak dapat meminjam buku",
            LibError::InvalidLoanDays => "Lama peminjaman harus lebih dari nol hari",
            LibError::InvalidCopyCounts => "Jumlah salinan tidak sesuai dengan peminjaman aktif",
            LibError::LoanNotFound => "Loan record not found",
            LibError::AlreadyReturned => "Book already returned",
            LibError::BookHasActiveLoans => "Buku masih sedang dipinjam",
            LibError::WrongPassword => "Kata sandi lama salah",
        }
    }
}

} // verus!
