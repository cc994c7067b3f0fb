//! The state machines of jobs and applications.
//!
//! A job is open until its company cancels it. An application is decided by
//! the company (offer or rejection), an offer is answered by the applicant
//! (acceptance or rejection), and the applicant can withdraw an application
//! that was not rejected.

use crate::records::{ApplicationStatus, JobStatus};
use vstd::prelude::*;

verus! {

impl JobStatus {
    /// The status after the company cancels the job, if it may.
    pub open spec fn after_cancel(self) -> Option<JobStatus> {
        match self {
            JobStatus::Open => Some(JobStatus::Canceled),
            _ => None,
        }
    }

    /// The status after the company cancels the job, if it may.
    pub fn cancel(self) -> (next: Option<JobStatus>)
        ensures
            next == self.after_cancel(),
    {
        match self {
            JobStatus::Open => Some(JobStatus::Canceled),
            _ => None,
        }
    }
}

impl ApplicationStatus {
    /// The status after the company decides on the application, if it may.
    pub open spec fn after_decision(self, accept: bool) -> Option<ApplicationStatus> {
        match self {
            ApplicationStatus::Applied => Some(
                if accept {
                    ApplicationStatus::Offer
                } else {
                    ApplicationStatus::Rejected
                },
            ),
            _ => None,
        }
    }

    /// The status after the applicant answers the offer, if there is one.
    pub open spec fn after_answer(self, accept: bool) -> Option<ApplicationStatus> {
        match self {
            ApplicationStatus::Offer => Some(
                if accept {
                    ApplicationStatus::Accepted
                } else {
                    ApplicationStatus::Rejected
                },
            ),
            _ => None,
        }
    }

    /// The status after the applicant withdraws the application, if they may.
    pub open spec fn after_withdrawal(self) -> Option<ApplicationStatus> {
        match self {
            ApplicationStatus::Applied | ApplicationStatus::Offer | ApplicationStatus::Accepted => {
                Some(ApplicationStatus::Withdraw)
            },
            _ => None,
        }
    }

    /// The status after the company decides on the application, if it may.
    pub fn decide(self, accept: bool) -> (next: Option<ApplicationStatus>)
        ensures
            next == self.after_decision(accept),
    {
        match self {
            ApplicationStatus::Applied => if accept {
                Some(ApplicationStatus::Offer)
            } else {
                Some(ApplicationStatus::Rejected)
            },
            _ => None,
        }
    }

    /// The status after the applicant answers the offer, if there is one.
    pub fn answer(self, accept: bool) -> (next: Option<ApplicationStatus>)
        ensures
            next == self.after_answer(accept),
    {
        match self {
            ApplicationStatus::Offer => if accept {
                Some(ApplicationStatus::Accepted)
            } else {
                Some(ApplicationStatus::Rejected)
            },
            _ => None,
        }
    }

    /// The status after the applicant withdraws the application, if they may.
    pub fn withdraw(self) -> (next: Option<ApplicationStatus>)
        ensures
            next == self.after_withdrawal(),
    {
        match self {
            ApplicationStatus::Applied | ApplicationStatus::Offer | ApplicationStatus::Accepted => {
                Some(ApplicationStatus::Withdraw)
            },
            _ => None,
        }
    }
}

} // verus!
