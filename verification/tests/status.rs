use assignment_backend::records::{ApplicationStatus, JobStatus};

#[test]
fn only_an_open_job_is_canceled() {
    assert_eq!(JobStatus::Open.cancel(), Some(JobStatus::Canceled));
    assert_eq!(JobStatus::Closed.cancel(), None);
    assert_eq!(JobStatus::Canceled.cancel(), None);
}

#[test]
fn company_decides_on_applied_only() {
    assert_eq!(ApplicationStatus::Applied.decide(true), Some(ApplicationStatus::Offer));
    assert_eq!(ApplicationStatus::Applied.decide(false), Some(ApplicationStatus::Rejected));
    for status in [
        ApplicationStatus::Withdraw,
        ApplicationStatus::Offer,
        ApplicationStatus::Accepted,
        ApplicationStatus::Rejected,
    ] {
        assert_eq!(status.decide(true), None);
        assert_eq!(status.decide(false), None);
    }
}

#[test]
fn applicant_answers_an_offer_only() {
    assert_eq!(ApplicationStatus::Offer.answer(true), Some(ApplicationStatus::Accepted));
    assert_eq!(ApplicationStatus::Offer.answer(false), Some(ApplicationStatus::Rejected));
    for status in [
        ApplicationStatus::Applied,
        ApplicationStatus::Withdraw,
        ApplicationStatus::Accepted,
        ApplicationStatus::Rejected,
    ] {
        assert_eq!(status.answer(true), None);
        assert_eq!(status.answer(false), None);
    }
}

#[test]
fn applicant_withdraws_unless_rejected_or_withdrawn() {
    assert_eq!(ApplicationStatus::Applied.withdraw(), Some(ApplicationStatus::Withdraw));
    assert_eq!(ApplicationStatus::Offer.withdraw(), Some(ApplicationStatus::Withdraw));
    assert_eq!(ApplicationStatus::Accepted.withdraw(), Some(ApplicationStatus::Withdraw));
    assert_eq!(ApplicationStatus::Rejected.withdraw(), None);
    assert_eq!(ApplicationStatus::Withdraw.withdraw(), None);
}
