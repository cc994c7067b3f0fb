use assignment_backend::backend::Backend;
use assignment_backend::denial::Denial;
use assignment_backend::identity::Identity;
use assignment_backend::records::{
    ApplicantParams, Application, ApplicationParams, ApplicationStatus, CompanyParams, JobParams,
    JobStatus,
};

fn text(s: &str) -> String {
    String::from(s)
}

fn acme() -> Identity {
    Identity::new(vec![1])
}

fn globex() -> Identity {
    Identity::new(vec![2])
}

fn ada() -> Identity {
    Identity::new(vec![10, 1])
}

fn bob() -> Identity {
    Identity::new(vec![10, 2])
}

fn application_for(job_id: u64) -> ApplicationParams {
    ApplicationParams {
        job_id,
        contact_email: text("Ada@Example.ORG"),
        salary_from: 10,
        salary_to: 20,
    }
}

/// Two companies with two jobs each (acme: 1 and 3, globex: 2 and 4) and two
/// applicants.
fn market() -> Backend {
    let mut backend = Backend::new();
    for (who, name) in [(acme(), "acme"), (globex(), "globex")] {
        let params = CompanyParams {
            name: text(name),
            logo: text(""),
            twitter: text(""),
            website: text(""),
        };
        assert_eq!(backend.create_company_profile(&who, 1, params), Ok(()));
    }
    for (who, name) in [(ada(), "ada"), (bob(), "bob")] {
        let params = ApplicantParams {
            first_name: text(name),
            last_name: text(""),
            nickname: text(""),
            bio: text(""),
        };
        assert_eq!(backend.create_applicant_profile(&who, 1, params, vec![]), Ok(()));
    }
    for (n, who) in [(1u64, acme()), (2, globex()), (3, acme()), (4, globex())] {
        let params = JobParams { position: text("dev"), description: text(""), bounty: n };
        assert_eq!(backend.create_job(&who, params, vec![]), Ok(n));
    }
    backend
}

fn status_of(backend: &Backend, id: u64) -> ApplicationStatus {
    backend.get_application(id).unwrap().status
}

fn ids_of(page: Option<Vec<Application>>) -> Vec<u64> {
    page.unwrap().iter().map(|a| a.id).collect()
}

#[test]
fn apply_stores_an_application_in_lowercase() {
    let mut backend = market();
    assert_eq!(backend.apply_to_job(&ada(), application_for(3)), Ok(1));
    assert_eq!(
        backend.get_application(1),
        Some(Application {
            id: 1,
            applicant_id: ada(),
            job_id: 3,
            contact_email: text("ada@example.org"),
            status: ApplicationStatus::Applied,
            salary_from: 10,
            salary_to: 20,
        })
    );
}

#[test]
fn file_application_stores_params_as_they_are() {
    let mut backend = market();
    assert_eq!(backend.file_application(&ada(), application_for(3)), Ok(1));
    assert_eq!(backend.get_application(1).unwrap().contact_email, "Ada@Example.ORG");
}

#[test]
fn application_ids_are_consecutive_and_apart_from_job_ids() {
    let mut backend = market();
    assert_eq!(backend.apply_to_job(&ada(), application_for(4)), Ok(1));
    assert_eq!(backend.apply_to_job(&bob(), application_for(4)), Ok(2));
    assert_eq!(backend.apply_to_job(&ada(), application_for(1)), Ok(3));
    assert_eq!(backend.get_application(4), None);
    assert_eq!(backend.get_application(0), None);
}

#[test]
fn only_an_applicant_applies() {
    let mut backend = market();
    assert_eq!(backend.apply_to_job(&acme(), application_for(1)), Err(Denial::NotApplicant));
    let stranger = Identity::new(vec![99]);
    assert_eq!(backend.apply_to_job(&stranger, application_for(1)), Err(Denial::NotApplicant));
    assert_eq!(backend.get_application(1), None);
}

#[test]
fn apply_needs_an_existing_job() {
    let mut backend = market();
    assert_eq!(backend.apply_to_job(&ada(), application_for(5)), Err(Denial::JobNotFound));
    assert_eq!(backend.apply_to_job(&ada(), application_for(0)), Err(Denial::JobNotFound));
    assert_eq!(backend.get_application(1), None);
    assert_eq!(backend.apply_to_job(&ada(), application_for(4)), Ok(1));
}

#[test]
fn apply_to_a_canceled_job_goes_through() {
    let mut backend = market();
    assert_eq!(backend.cancel_job(&acme(), 1), Ok(JobStatus::Canceled));
    assert_eq!(backend.apply_to_job(&ada(), application_for(1)), Ok(1));
    assert_eq!(status_of(&backend, 1), ApplicationStatus::Applied);
}

#[test]
fn offer_is_made_once() {
    let mut backend = market();
    assert_eq!(backend.apply_to_job(&ada(), application_for(1)), Ok(1));
    assert_eq!(backend.make_offer(&acme(), 1, 1, true), Ok(ApplicationStatus::Offer));
    assert_eq!(status_of(&backend, 1), ApplicationStatus::Offer);
    assert_eq!(backend.make_offer(&acme(), 1, 1, true), Err(Denial::InvalidStatus));
    assert_eq!(status_of(&backend, 1), ApplicationStatus::Offer);
    assert_eq!(backend.make_offer(&acme(), 1, 1, false), Err(Denial::InvalidStatus));
    assert_eq!(status_of(&backend, 1), ApplicationStatus::Offer);
}

#[test]
fn company_rejects_an_application() {
    let mut backend = market();
    assert_eq!(backend.apply_to_job(&ada(), application_for(1)), Ok(1));
    assert_eq!(backend.make_offer(&acme(), 1, 1, false), Ok(ApplicationStatus::Rejected));
    assert_eq!(status_of(&backend, 1), ApplicationStatus::Rejected);
    assert_eq!(backend.make_offer(&acme(), 1, 1, true), Err(Denial::InvalidStatus));
    assert_eq!(status_of(&backend, 1), ApplicationStatus::Rejected);
}

#[test]
fn offer_needs_the_owner_of_the_job() {
    let mut backend = market();
    assert_eq!(backend.apply_to_job(&ada(), application_for(1)), Ok(1));
    assert_eq!(backend.make_offer(&globex(), 1, 1, true), Err(Denial::Unauthorized));
    assert_eq!(backend.make_offer(&ada(), 1, 1, true), Err(Denial::Unauthorized));
    assert_eq!(status_of(&backend, 1), ApplicationStatus::Applied);
}

#[test]
fn offer_needs_the_job_of_the_application() {
    let mut backend = market();
    assert_eq!(backend.apply_to_job(&ada(), application_for(2)), Ok(1));
    // acme owns job 1, but the application is for job 2 of globex
    assert_eq!(backend.make_offer(&acme(), 1, 1, true), Err(Denial::Unauthorized));
    assert_eq!(backend.make_offer(&acme(), 1, 2, true), Err(Denial::Unauthorized));
    assert_eq!(status_of(&backend, 1), ApplicationStatus::Applied);
    assert_eq!(backend.make_offer(&globex(), 1, 2, true), Ok(ApplicationStatus::Offer));
}

#[test]
fn offer_on_missing_records_is_refused() {
    let mut backend = market();
    assert_eq!(backend.make_offer(&acme(), 1, 9, true), Err(Denial::JobNotFound));
    assert_eq!(backend.make_offer(&acme(), 1, 1, true), Err(Denial::ApplicationNotFound));
}

#[test]
fn applicant_accepts_an_offer() {
    let mut backend = market();
    assert_eq!(backend.apply_to_job(&ada(), application_for(1)), Ok(1));
    assert_eq!(backend.make_offer(&acme(), 1, 1, true), Ok(ApplicationStatus::Offer));
    assert_eq!(backend.accept_offer(&ada(), 1, true), Ok(ApplicationStatus::Accepted));
    assert_eq!(status_of(&backend, 1), ApplicationStatus::Accepted);
    assert_eq!(backend.accept_offer(&ada(), 1, true), Err(Denial::InvalidStatus));
    assert_eq!(status_of(&backend, 1), ApplicationStatus::Accepted);
}

#[test]
fn applicant_declines_an_offer() {
    let mut backend = market();
    assert_eq!(backend.apply_to_job(&ada(), application_for(1)), Ok(1));
    assert_eq!(backend.make_offer(&acme(), 1, 1, true), Ok(ApplicationStatus::Offer));
    assert_eq!(backend.accept_offer(&ada(), 1, false), Ok(ApplicationStatus::Rejected));
    assert_eq!(status_of(&backend, 1), ApplicationStatus::Rejected);
}

#[test]
fn offer_answered_by_another_identity_stays_an_offer() {
    let mut backend = market();
    assert_eq!(backend.apply_to_job(&ada(), application_for(1)), Ok(1));
    assert_eq!(backend.make_offer(&acme(), 1, 1, true), Ok(ApplicationStatus::Offer));
    assert_eq!(backend.accept_offer(&bob(), 1, true), Err(Denial::Unauthorized));
    assert_eq!(status_of(&backend, 1), ApplicationStatus::Offer);
    assert_eq!(backend.accept_offer(&acme(), 1, true), Err(Denial::Unauthorized));
    assert_eq!(status_of(&backend, 1), ApplicationStatus::Offer);
    assert_eq!(backend.accept_offer(&bob(), 1, false), Err(Denial::Unauthorized));
    assert_eq!(status_of(&backend, 1), ApplicationStatus::Offer);
}

#[test]
fn answer_needs_an_offer() {
    let mut backend = market();
    assert_eq!(backend.apply_to_job(&ada(), application_for(1)), Ok(1));
    assert_eq!(backend.accept_offer(&ada(), 1, true), Err(Denial::InvalidStatus));
    assert_eq!(status_of(&backend, 1), ApplicationStatus::Applied);
    assert_eq!(backend.accept_offer(&ada(), 2, true), Err(Denial::ApplicationNotFound));
}

#[test]
fn applicant_withdraws_from_applied_offer_and_accepted() {
    let mut backend = market();
    assert_eq!(backend.apply_to_job(&ada(), application_for(1)), Ok(1));
    assert_eq!(backend.apply_to_job(&ada(), application_for(1)), Ok(2));
    assert_eq!(backend.apply_to_job(&ada(), application_for(1)), Ok(3));
    assert_eq!(backend.make_offer(&acme(), 2, 1, true), Ok(ApplicationStatus::Offer));
    assert_eq!(backend.make_offer(&acme(), 3, 1, true), Ok(ApplicationStatus::Offer));
    assert_eq!(backend.accept_offer(&ada(), 3, true), Ok(ApplicationStatus::Accepted));
    for id in 1..=3u64 {
        assert_eq!(backend.withdraw_application(&ada(), id), Ok(ApplicationStatus::Withdraw));
        assert_eq!(status_of(&backend, id), ApplicationStatus::Withdraw);
    }
}

#[test]
fn rejected_or_withdrawn_application_is_not_withdrawn() {
    let mut backend = market();
    assert_eq!(backend.apply_to_job(&ada(), application_for(1)), Ok(1));
    assert_eq!(backend.apply_to_job(&ada(), application_for(1)), Ok(2));
    assert_eq!(backend.make_offer(&acme(), 1, 1, false), Ok(ApplicationStatus::Rejected));
    assert_eq!(backend.withdraw_application(&ada(), 1), Err(Denial::InvalidStatus));
    assert_eq!(status_of(&backend, 1), ApplicationStatus::Rejected);
    assert_eq!(backend.withdraw_application(&ada(), 2), Ok(ApplicationStatus::Withdraw));
    assert_eq!(backend.withdraw_application(&ada(), 2), Err(Denial::InvalidStatus));
    assert_eq!(status_of(&backend, 2), ApplicationStatus::Withdraw);
}

#[test]
fn withdrawal_needs_the_owner() {
    let mut backend = market();
    assert_eq!(backend.apply_to_job(&ada(), application_for(1)), Ok(1));
    assert_eq!(backend.withdraw_application(&bob(), 1), Err(Denial::Unauthorized));
    assert_eq!(backend.withdraw_application(&acme(), 1), Err(Denial::Unauthorized));
    assert_eq!(status_of(&backend, 1), ApplicationStatus::Applied);
    assert_eq!(backend.withdraw_application(&ada(), 7), Err(Denial::ApplicationNotFound));
}

#[test]
fn withdrawn_application_gets_no_offer() {
    let mut backend = market();
    assert_eq!(backend.apply_to_job(&ada(), application_for(1)), Ok(1));
    assert_eq!(backend.withdraw_application(&ada(), 1), Ok(ApplicationStatus::Withdraw));
    assert_eq!(backend.make_offer(&acme(), 1, 1, true), Err(Denial::InvalidStatus));
    assert_eq!(status_of(&backend, 1), ApplicationStatus::Withdraw);
}

#[test]
fn status_change_keeps_the_rest_of_the_application() {
    let mut backend = market();
    assert_eq!(backend.apply_to_job(&ada(), application_for(1)), Ok(1));
    let before = backend.get_application(1).unwrap();
    assert_eq!(backend.make_offer(&acme(), 1, 1, true), Ok(ApplicationStatus::Offer));
    let after = backend.get_application(1).unwrap();
    assert_eq!(after, Application { status: ApplicationStatus::Offer, ..before });
}

/// Applications 1..=8: ada applies to jobs 1, 2, 3, 4 and bob to 1, 2, 3, 4,
/// in turn (ada 1, bob 1, ada 2, ...).
fn with_applications() -> Backend {
    let mut backend = market();
    let mut expected: u64 = 1;
    for job in 1..=4u64 {
        for who in [ada(), bob()] {
            assert_eq!(backend.apply_to_job(&who, application_for(job)), Ok(expected));
            expected += 1;
        }
    }
    backend
}

#[test]
fn application_list_windows() {
    let backend = with_applications();
    assert_eq!(ids_of(backend.get_application_list(0, 3)), vec![1, 2, 3]);
    assert_eq!(ids_of(backend.get_application_list(6, 3)), vec![7, 8]);
    assert_eq!(ids_of(backend.get_application_list(7, u64::MAX)), vec![8]);
    assert_eq!(backend.get_application_list(8, 3), None);
    assert_eq!(backend.get_application_list(0, 0), None);
}

#[test]
fn applicant_sees_their_own_applications() {
    let backend = with_applications();
    assert_eq!(ids_of(backend.applicant_application_list(&ada(), 0, 10)), vec![1, 3, 5, 7]);
    assert_eq!(ids_of(backend.applicant_application_list(&bob(), 0, 10)), vec![2, 4, 6, 8]);
    assert_eq!(ids_of(backend.applicant_application_list(&ada(), 0, 2)), vec![1, 3]);
    assert_eq!(ids_of(backend.applicant_application_list(&ada(), 1, 2)), vec![3, 5]);
    assert_eq!(ids_of(backend.applicant_application_list(&ada(), 3, 2)), vec![5, 7]);
    assert_eq!(ids_of(backend.applicant_application_list(&bob(), 7, 2)), vec![8]);
    assert_eq!(ids_of(backend.applicant_application_list(&ada(), 0, u64::MAX)), vec![1, 3, 5, 7]);
}

#[test]
fn applicant_list_without_matches_is_no_data() {
    let backend = with_applications();
    assert_eq!(backend.applicant_application_list(&ada(), 7, 2), None);
    assert_eq!(backend.applicant_application_list(&ada(), 8, 2), None);
    assert_eq!(backend.applicant_application_list(&ada(), 0, 0), None);
    assert_eq!(backend.applicant_application_list(&acme(), 0, 10), None);
    assert_eq!(backend.applicant_application_list(&ada(), u64::MAX, u64::MAX), None);
    assert_eq!(market().applicant_application_list(&ada(), 0, 10), None);
}

#[test]
fn company_sees_the_applications_for_its_jobs() {
    let backend = with_applications();
    // jobs 1 and 3 are acme's, 2 and 4 globex's
    assert_eq!(ids_of(backend.company_application_list(&acme(), 0, 10)), vec![1, 2, 5, 6]);
    assert_eq!(ids_of(backend.company_application_list(&globex(), 0, 10)), vec![3, 4, 7, 8]);
    assert_eq!(ids_of(backend.company_application_list(&acme(), 0, 3)), vec![1, 2, 5]);
    assert_eq!(ids_of(backend.company_application_list(&acme(), 2, 3)), vec![5, 6]);
    assert_eq!(ids_of(backend.company_application_list(&globex(), 3, 1)), vec![4]);
}

#[test]
fn company_list_without_matches_is_no_data() {
    let backend = with_applications();
    assert_eq!(backend.company_application_list(&acme(), 6, 10), None);
    assert_eq!(backend.company_application_list(&acme(), 0, 0), None);
    assert_eq!(backend.company_application_list(&ada(), 0, 10), None);
    assert_eq!(backend.company_application_list(&Identity::new(vec![77]), 0, 10), None);
    assert_eq!(market().company_application_list(&acme(), 0, 10), None);
}

#[test]
fn company_without_jobs_sees_no_application() {
    let mut backend = with_applications();
    let idle = Identity::new(vec![3]);
    let params = CompanyParams {
        name: text("idle"),
        logo: text(""),
        twitter: text(""),
        website: text(""),
    };
    assert_eq!(backend.create_company_profile(&idle, 1, params), Ok(()));
    assert_eq!(backend.company_application_list(&idle, 0, 10), None);
}

#[test]
fn application_status_defaults_to_applied() {
    assert_eq!(ApplicationStatus::default(), ApplicationStatus::Applied);
}
