//! Why an operation was refused.

use vstd::prelude::*;

verus! {

/// One of the two roles an identity can take.
#[derive(Clone, Copy, Debug, PartialEq, Eq, Structural)]
pub enum Role {
    Company,
    Applicant,
}

/// The reason for which an operation changed nothing.
#[derive(Clone, Copy, Debug, PartialEq, Eq, Structural)]
pub enum Denial {
    /// The identity already has a profile, in the given role.
    RoleConflict(Role),
    /// The identity has no applicant profile.
    NotApplicant,
    /// The identity has no company profile.
    NotCompany,
    /// The identity does not own the record it wants to change.
    Unauthorized,
    /// No job has the given id.
    JobNotFound,
    /// No application has the given id.
    ApplicationNotFound,
    /// The record is not in a status from which the change is allowed.
    InvalidStatus,
    /// Every id of the kind has been handed out.
    IdsExhausted,
}

impl Denial {
    /// The text that states this reason.
    pub open spec fn text(self) -> Seq<char> {
        match self {
            Denial::RoleConflict(Role::Company) => "User already exist as Company"@,
            Denial::RoleConflict(Role::Applicant) => "User already exist as Applicant"@,
            Denial::NotApplicant => "Invalid User"@,
            Denial::NotCompany => "Invalid User"@,
            Denial::Unauthorized => "Unauthorized"@,
            Denial::JobNotFound => "Job not found"@,
            Denial::ApplicationNotFound => "Application not found"@,
            Denial::InvalidStatus => "Invalid status"@,
            Denial::IdsExhausted => "No id left"@,
        }
    }

    /// The text that states this reason.
    pub fn message(&self) -> (message: String)
        ensures
            message@ == self.text(),
    {
        match self {
            Denial::RoleConflict(Role::Company) => "User already exist as Company".to_owned(),
            Denial::RoleConflict(Role::Applicant) => "User already exist as Applicant".to_owned(),
            Denial::NotApplicant => "Invalid User".to_owned(),
            Denial::NotCompany => "Invalid User".to_owned(),
            Denial::Unauthorized => "Unauthorized".to_owned(),
            Denial::JobNotFound => "Job not found".to_owned(),
            Denial::ApplicationNotFound => "Application not found".to_owned(),
            Denial::InvalidStatus => "Invalid status".to_owned(),
            Denial::IdsExhausted => "No id left".to_owned(),
        }
    }
}

} // verus!
