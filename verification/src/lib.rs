//! Core of a school-library management backend: the loan lifecycle and
//! inventory consistency engine.
//!
//! The persistent store and the desktop shell are external collaborators;
//! this crate holds the logic with invariants worth protecting. `library`
//! carries the loan state machine over an explicit model of the store's
//! rows; `book`, `member`, `loan` are the records and their row-level
//! transitions; `fine` is the fine calculator; `codes` generates and
//! parses the year-scoped identifiers; `laws` states and proves the
//! engine's guarantees; `clock`, `reports`, `users`, `text` round out the
//! edges the operations need.

pub mod book;
pub mod clock;
pub mod codes;
pub mod errors;
pub mod fine;
pub mod laws;
pub mod library;
pub mod loan;
pub mod member;
pub mod reports;
pub mod text;
pub mod users;
