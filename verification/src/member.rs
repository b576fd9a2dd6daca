//! Members: identity, year-scoped code, and the active/inactive status
//! that gates borrowing. Members are never physically removed; deletion
//! flips the status so loan history stays intact.

use vstd::prelude::*;

verus! {

/// A member's standing. `Nonaktif` blocks borrowing but keeps history.
#[derive(Clone, Copy, Debug, PartialEq, Eq, Structural)]
pub enum MemberStatus {
    Aktif,
    Nonaktif,
}

impl MemberStatus {
    pub open spec fn spec_label(self) -> Seq<char> {
        match self {
            MemberStatus::Aktif => "Aktif"@,
            MemberStatus::Nonaktif => "Nonaktif"@,
        }
    }

    /// The status text as the store records it.
    pub fn label(&self) -> (label: &'static str)
        ensures
            label@ == self.spec_label(),
    {
        match self {
            MemberStatus::Aktif => "Aktif",
            MemberStatus::Nonaktif => "Nonaktif",
        }
    }
}

/// One registered member.
pub struct Member {
    pub id: i64,
    pub member_code: String,
    pub name: String,
    pub email: Option<String>,
    pub phone: Option<String>,
    pub kelas: Option<String>,
    pub jenis_kelamin: Option<String>,
    pub status: MemberStatus,
}

/// The caller-supplied fields of a member to register. A blank or missing
/// code has one generated; a missing status defaults to `Aktif`.
pub struct NewMember {
    pub member_code: Option<String>,
    pub name: String,
    pub email: Option<String>,
    pub phone: Option<String>,
    pub kelas: Option<String>,
    pub jenis_kelamin: Option<String>,
    pub status: Option<MemberStatus>,
}

impl Member {
    /// May borrow books.
    pub open spec fn can_borrow(self) -> bool {
        self.status == MemberStatus::Aktif
    }
}

} // verus!
