//! Books and the inventory ledger: copy-count accounting and status
//! derivation for a single title.

use vstd::prelude::*;
use crate::errors::LibError;

verus! {

/// Availability status of a book, derived from copy counts on loan
/// traffic; `TidakTersedia` is only ever set manually.
#[derive(Clone, Copy, Debug, PartialEq, Eq, Structural)]
pub enum BookStatus {
    Tersedia,
    Dipinjam,
    TidakTersedia,
}

impl BookStatus {
    pub open spec fn spec_label(self) -> Seq<char> {
        match self {
            BookStatus::Tersedia => "Tersedia"@,
            BookStatus::Dipinjam => "Dipinjam"@,
            BookStatus::TidakTersedia => "Tidak Tersedia"@,
        }
    }

    /// The status text as the store records it.
    pub fn label(&self) -> (label: &'static str)
        ensures
            label@ == self.spec_label(),
    {
        match self {
            BookStatus::Tersedia => "Tersedia",
            BookStatus::Dipinjam => "Dipinjam",
            BookStatus::TidakTersedia => "Tidak Tersedia",
        }
    }
}

/// One book title, with its copy counts. `available_copy` counts the
/// currently loanable units; a soft-deleted book keeps its row but leaves
/// every active view.
pub struct Book {
    pub id: i64,
    pub title: String,
    pub author: String,
    pub isbn: String,
    pub category: Option<String>,
    pub publisher: Option<String>,
    pub published_year: Option<i64>,
    pub rack_location: Option<String>,
    pub barcode: String,
    pub total_copy: i64,
    pub available_copy: i64,
    pub cover: Option<String>,
    pub status: BookStatus,
    pub deleted_at: Option<i64>,
}

/// The caller-supplied fields of a book to add; identity, barcode, and the
/// initial available count are assigned by the operation itself.
pub struct NewBook {
    pub title: String,
    pub author: String,
    pub isbn: String,
    pub category: Option<String>,
    pub publisher: Option<String>,
    pub published_year: Option<i64>,
    pub rack_location: Option<String>,
    pub total_copy: i64,
    pub cover: Option<String>,
    pub status: Option<BookStatus>,
}

/// The caller-editable fields of a book update. Identity, barcode, and the
/// deletion stamp are not editable.
pub struct BookEdit {
    pub title: String,
    pub author: String,
    pub isbn: String,
    pub category: Option<String>,
    pub publisher: Option<String>,
    pub published_year: Option<i64>,
    pub rack_location: Option<String>,
    pub total_copy: i64,
    pub available_copy: i64,
    pub cover: Option<String>,
    pub status: BookStatus,
}

impl Book {
    /// Copy counts make sense: never negative, never past the total.
    pub open spec fn wf(self) -> bool {
        0 <= self.available_copy <= self.total_copy
    }

    /// Not soft-deleted.
    pub open spec fn is_active(self) -> bool {
        self.deleted_at is None
    }

    /// The book after one copy is taken, with the status flipped to
    /// `Dipinjam` exactly when the last copy left.
    pub open spec fn spec_acquired(self) -> Book {
        Book {
            available_copy: (self.available_copy - 1) as i64,
            status: if self.available_copy == 1 {
                BookStatus::Dipinjam
            } else {
                self.status
            },
            ..self
        }
    }

    /// Which error `acquire_copy` gives, if any: a deleted book is not
    /// found, then an exhausted one is out of stock.
    pub open spec fn spec_acquire_result(self) -> Result<(), LibError> {
        if !self.is_active() {
            Result::Err(LibError::BookNotFound)
        } else if self.available_copy <= 0 {
            Result::Err(LibError::OutOfStock)
        } else {
            Result::Ok(())
        }
    }

    /// Takes one copy for a new loan: decrements `available_copy` and, when
    /// that empties the shelf, marks the book `Dipinjam`; any other status
    /// is left untouched. Fails without change on a deleted or exhausted
    /// book.
    pub fn acquire_copy(&mut self) -> (r: Result<(), LibError>)
        requires
            old(self).wf(),
        ensures
            r == old(self).spec_acquire_result(),
            r is Ok ==> *final(self) == old(self).spec_acquired(),
            r is Err ==> *final(self) == *old(self),
            final(self).wf(),
    {
        if self.deleted_at.is_some() {
            return Result::Err(LibError::BookNotFound);
        }
        if self.available_copy <= 0 {
            return Result::Err(LibError::OutOfStock);
        }
        self.available_copy = self.available_copy - 1;
        if self.available_copy == 0 {
            self.status = BookStatus::Dipinjam;
        }
        Result::Ok(())
    }

    /// The book after a returned copy: one more available, status reset.
    pub open spec fn spec_released(self) -> Book {
        Book { available_copy: (self.available_copy + 1) as i64, status: BookStatus::Tersedia, ..self }
    }

    /// Puts a returned copy back: increments `available_copy` and
    /// unconditionally resets the status to `Tersedia`, even over a manual
    /// `TidakTersedia`. The caller guarantees a copy is actually out, which
    /// the loan ledger's accounting provides.
    pub fn release_copy(&mut self)
        requires
            old(self).wf(),
            old(self).available_copy < old(self).total_copy,
        ensures
            *final(self) == old(self).spec_released(),
            final(self).wf(),
    {
        self.available_copy = self.available_copy + 1;
        self.status = BookStatus::Tersedia;
    }

    /// Which error the circulation desk's lookup raises for this book, if
    /// any: out of stock first, then a manual `TidakTersedia` marking.
    pub open spec fn spec_screen_result(self) -> Result<(), LibError> {
        if self.available_copy <= 0 {
            Result::Err(LibError::OutOfStock)
        } else if self.status == BookStatus::TidakTersedia {
            Result::Err(LibError::BookUnavailable)
        } else {
            Result::Ok(())
        }
    }

    /// Screens a looked-up book before it is offered for borrowing, as the
    /// barcode/ISBN search does.
    pub fn screen_for_loan(&self) -> (r: Result<(), LibError>)
        ensures
            r == self.spec_screen_result(),
    {
        if self.available_copy <= 0 {
            Result::Err(LibError::OutOfStock)
        } else if self.status == BookStatus::TidakTersedia {
            Result::Err(LibError::BookUnavailable)
        } else {
            Result::Ok(())
        }
    }
}

} // verus!
