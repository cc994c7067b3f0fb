use assignment_backend::backend::Backend;
use assignment_backend::denial::Denial;
use assignment_backend::identity::Identity;
use assignment_backend::records::{CompanyParams, JobParams, JobStatus, Skill};

fn job_params(position: &str, bounty: u64) -> JobParams {
    JobParams {
        position: String::from(position),
        description: String::from("Builds THINGS"),
        bounty,
    }
}

fn backend_with_company(who: &Identity) -> Backend {
    let mut backend = Backend::new();
    let params = CompanyParams {
        name: String::from("acme"),
        logo: String::new(),
        twitter: String::new(),
        website: String::new(),
    };
    assert_eq!(backend.create_company_profile(who, 1, params), Ok(()));
    backend
}

#[test]
fn job_ids_are_consecutive_from_one() {
    let acme = Identity::new(vec![1]);
    let mut backend = backend_with_company(&acme);
    for expected in 1..=25u64 {
        assert_eq!(backend.create_job(&acme, job_params("Dev", expected), vec![]), Ok(expected));
    }
    for id in 1..=25u64 {
        let job = backend.get_job(id).unwrap();
        assert_eq!(job.id, id);
        assert_eq!(job.bounty, id);
    }
    assert_eq!(backend.get_job(0), None);
    assert_eq!(backend.get_job(26), None);
}

#[test]
fn job_ids_are_shared_by_all_companies() {
    let acme = Identity::new(vec![1]);
    let other = Identity::new(vec![2]);
    let mut backend = backend_with_company(&acme);
    let params = CompanyParams {
        name: String::from("other"),
        logo: String::new(),
        twitter: String::new(),
        website: String::new(),
    };
    assert_eq!(backend.create_company_profile(&other, 1, params), Ok(()));
    assert_eq!(backend.create_job(&acme, job_params("a", 1), vec![]), Ok(1));
    assert_eq!(backend.create_job(&other, job_params("b", 1), vec![]), Ok(2));
    assert_eq!(backend.create_job(&acme, job_params("c", 1), vec![]), Ok(3));
    assert_eq!(backend.get_job(2).unwrap().company_id, other);
    assert_eq!(backend.get_job(3).unwrap().company_id, acme);
}

#[test]
fn create_job_stores_an_open_job_in_lowercase() {
    let acme = Identity::new(vec![1]);
    let mut backend = backend_with_company(&acme);
    let skills = vec![
        Skill { id: Some(7), name: String::from("Seven") },
        Skill { id: None, name: String::from("Fresh") },
        Skill { id: Some(3), name: String::from("Three") },
    ];
    assert_eq!(backend.create_job(&acme, job_params("Senior DEV", 900), skills), Ok(1));
    let job = backend.get_job(1).unwrap();
    assert_eq!(job.id, 1);
    assert_eq!(job.company_id, acme);
    assert_eq!(job.position, "senior dev");
    assert_eq!(job.description, "builds things");
    assert_eq!(job.bounty, 900);
    assert_eq!(job.status, JobStatus::Open);
    assert_eq!(
        job.required_skills,
        vec![
            Skill { id: Some(0), name: String::from("Fresh") },
            Skill { id: Some(3), name: String::from("Three") },
            Skill { id: Some(7), name: String::from("Seven") },
        ]
    );
}

#[test]
fn post_job_stores_params_as_they_are() {
    let acme = Identity::new(vec![1]);
    let mut backend = backend_with_company(&acme);
    assert_eq!(backend.post_job(&acme, job_params("Senior DEV", 900), vec![]), Ok(1));
    let job = backend.get_job(1).unwrap();
    assert_eq!(job.position, "Senior DEV");
    assert_eq!(job.description, "Builds THINGS");
}

#[test]
fn only_a_company_creates_a_job() {
    let acme = Identity::new(vec![1]);
    let stranger = Identity::new(vec![9]);
    let mut backend = backend_with_company(&acme);
    let skills = vec![Skill { id: None, name: String::from("rust") }];
    assert_eq!(
        backend.create_job(&stranger, job_params("Dev", 1), skills),
        Err(Denial::NotCompany)
    );
    assert_eq!(backend.get_job(1), None);
    assert_eq!(backend.get_skill_list(0, 10), None);
    assert_eq!(backend.create_job(&acme, job_params("Dev", 1), vec![]), Ok(1));
}

#[test]
fn owner_cancels_an_open_job() {
    let acme = Identity::new(vec![1]);
    let mut backend = backend_with_company(&acme);
    assert_eq!(backend.create_job(&acme, job_params("Dev", 1), vec![]), Ok(1));
    assert_eq!(backend.cancel_job(&acme, 1), Ok(JobStatus::Canceled));
    let job = backend.get_job(1).unwrap();
    assert_eq!(job.status, JobStatus::Canceled);
    assert_eq!(job.position, "dev");
    assert_eq!(job.company_id, acme);
}

#[test]
fn cancel_by_a_stranger_changes_nothing() {
    let acme = Identity::new(vec![1]);
    let stranger = Identity::new(vec![9]);
    let mut backend = backend_with_company(&acme);
    assert_eq!(backend.create_job(&acme, job_params("Dev", 1), vec![]), Ok(1));
    let before = backend.get_job(1);
    assert_eq!(backend.cancel_job(&stranger, 1), Err(Denial::Unauthorized));
    assert_eq!(backend.get_job(1), before);
    assert_eq!(backend.get_job(1).unwrap().status, JobStatus::Open);
}

#[test]
fn cancel_of_a_missing_job_is_refused() {
    let acme = Identity::new(vec![1]);
    let mut backend = backend_with_company(&acme);
    assert_eq!(backend.cancel_job(&acme, 1), Err(Denial::JobNotFound));
    assert_eq!(backend.cancel_job(&acme, 0), Err(Denial::JobNotFound));
}

#[test]
fn canceled_job_is_not_canceled_again() {
    let acme = Identity::new(vec![1]);
    let mut backend = backend_with_company(&acme);
    assert_eq!(backend.create_job(&acme, job_params("Dev", 1), vec![]), Ok(1));
    assert_eq!(backend.cancel_job(&acme, 1), Ok(JobStatus::Canceled));
    assert_eq!(backend.cancel_job(&acme, 1), Err(Denial::InvalidStatus));
    assert_eq!(backend.get_job(1).unwrap().status, JobStatus::Canceled);
}

#[test]
fn job_list_returns_the_remainder_when_limit_exceeds_it() {
    let acme = Identity::new(vec![1]);
    let mut backend = backend_with_company(&acme);
    for n in 1..=120u64 {
        assert_eq!(backend.create_job(&acme, job_params("Dev", n), vec![]), Ok(n));
    }
    let page = backend.get_job_list(100, 50).unwrap();
    assert_eq!(page.len(), 20);
    for (i, job) in page.iter().enumerate() {
        assert_eq!(job.id, 101 + i as u64);
        assert_eq!(job.bounty, 101 + i as u64);
    }
}

#[test]
fn job_list_with_limit_zero_is_no_data() {
    let acme = Identity::new(vec![1]);
    let mut backend = backend_with_company(&acme);
    assert_eq!(backend.create_job(&acme, job_params("Dev", 1), vec![]), Ok(1));
    assert_eq!(backend.get_job_list(0, 0), None);
}

#[test]
fn job_list_windows() {
    let acme = Identity::new(vec![1]);
    let mut backend = backend_with_company(&acme);
    for n in 1..=10u64 {
        assert_eq!(backend.create_job(&acme, job_params("Dev", n), vec![]), Ok(n));
    }
    let ids = |page: Option<Vec<assignment_backend::records::JobResponse>>| -> Vec<u64> {
        page.unwrap().iter().map(|job| job.id).collect()
    };
    assert_eq!(ids(backend.get_job_list(0, 3)), vec![1, 2, 3]);
    assert_eq!(ids(backend.get_job_list(3, 3)), vec![4, 5, 6]);
    assert_eq!(ids(backend.get_job_list(9, 1)), vec![10]);
    assert_eq!(ids(backend.get_job_list(9, 5)), vec![10]);
    assert_eq!(ids(backend.get_job_list(0, 10)).len(), 10);
    assert_eq!(ids(backend.get_job_list(0, u64::MAX)).len(), 10);
    assert_eq!(ids(backend.get_job_list(7, u64::MAX)), vec![8, 9, 10]);
    assert_eq!(backend.get_job_list(10, 1), None);
    assert_eq!(backend.get_job_list(11, 1), None);
    assert_eq!(backend.get_job_list(u64::MAX, u64::MAX), None);
}

#[test]
fn job_status_defaults_to_open() {
    assert_eq!(JobStatus::default(), JobStatus::Open);
}
