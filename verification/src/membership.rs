//! Organization members as the directory endpoints see them.
use vstd::prelude::*;

verus! {

/// The states that a membership passes through.
#[derive(Clone, Copy, Debug, PartialEq, Eq, Structural)]
pub enum MembershipStatus {
    Invited,
    Accepted,
    Confirmed,
    Revoked,
}

/// The numbers under which the storage keeps the states and types of members
/// that the endpoints name.
#[derive(Clone, Copy, Debug, PartialEq, Eq, Structural)]
pub struct RoleCodes {
    /// Status of a member who accepted an invitation.
    pub accepted: i32,
    /// Status of a member whom the organization confirmed.
    pub confirmed: i32,
    /// Type of an owner.
    pub owner: i32,
    /// Type of an ordinary user.
    pub user: i32,
}

impl RoleCodes {
    /// An owner who has been confirmed.
    pub open spec fn confirmed_owner(self, atype: i32, status: i32) -> bool {
        atype == self.owner && status == self.confirmed
    }

    /// Whether the member is an owner who has been confirmed.
    pub fn is_confirmed_owner(&self, atype: i32, status: i32) -> (res: bool)
        ensures
            res == self.confirmed_owner(atype, status),
            res == (atype == self.owner && status == self.confirmed),
    {
        atype == self.owner && status == self.confirmed
    }
}

/// The name of a status; `Unknown` where the stored number stands for none.
pub open spec fn status_name_spec(status: Option<MembershipStatus>) -> Seq<char> {
    match status {
        Some(MembershipStatus::Invited) => "Invited"@,
        Some(MembershipStatus::Accepted) => "Accepted"@,
        Some(MembershipStatus::Confirmed) => "Confirmed"@,
        Some(MembershipStatus::Revoked) => "Revoked"@,
        None => "Unknown"@,
    }
}

/// The name of a status; `Unknown` where the stored number stands for none.
pub fn status_name(status: Option<MembershipStatus>) -> (name: &'static str)
    ensures
        name@ == status_name_spec(status),
{
    match status {
        Some(MembershipStatus::Invited) => "Invited",
        Some(MembershipStatus::Accepted) => "Accepted",
        Some(MembershipStatus::Confirmed) => "Confirmed",
        Some(MembershipStatus::Revoked) => "Revoked",
        None => "Unknown",
    }
}

/// Every status has its name, and a number that stands for none is unknown.
pub proof fn statuses_have_their_names()
    ensures
        status_name_spec(Some(MembershipStatus::Invited)) == "Invited"@,
        status_name_spec(Some(MembershipStatus::Accepted)) == "Accepted"@,
        status_name_spec(Some(MembershipStatus::Confirmed)) == "Confirmed"@,
        status_name_spec(Some(MembershipStatus::Revoked)) == "Revoked"@,
        status_name_spec(None) == "Unknown"@,
{
}

} // verus!
