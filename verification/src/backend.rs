//! The backend: the stores, the counters and the operations on them.
//!
//! A [`Backend`] owns every store. Each operation takes the identity of the
//! caller as an argument, and the time where it needs it. What an operation
//! returns and what it changes is stated over the view of the backend, a
//! [`BackendView`].

use crate::denial::Denial;
use crate::identity::Identity;
use crate::identity_map::IdentityMap;
use crate::ids::IdAllocator;
use crate::model::BackendView;
use crate::pagination::views;
use crate::records::{Application, ApplicantProfile, CompanyProfile, Job};
use crate::skills::SkillRegistry;
use std::collections::BTreeMap;
use vstd::prelude::*;

mod lifecycle;
mod queries;

verus! {

/// The stores of the backend.
pub struct Backend {
    applicants: IdentityMap<ApplicantProfile>,
    companies: IdentityMap<CompanyProfile>,
    job_ids: IdAllocator,
    jobs: BTreeMap<u64, Job>,
    jobs_by_company: IdentityMap<Vec<u64>>,
    application_ids: IdAllocator,
    applications: BTreeMap<u64, Application>,
    registry: SkillRegistry,
}

impl View for Backend {
    type V = BackendView;

    closed spec fn view(&self) -> BackendView {
        BackendView {
            applicants: self.applicants@.map_values(|profile: ApplicantProfile| profile@),
            companies: self.companies@.map_values(|profile: CompanyProfile| profile@),
            last_job: self.job_ids@,
            jobs: self.jobs@.map_values(|job: Job| job@),
            jobs_by_company: self.jobs_by_company@.map_values(|ids: Vec<u64>| ids@),
            last_application: self.application_ids@,
            applications: self.applications@.map_values(|application: Application| application@),
            registry: self.registry@,
        }
    }
}

impl Backend {
    /// The stores are in order and hold a well-formed state.
    pub closed spec fn wf(&self) -> bool {
        &&& self.applicants.wf()
        &&& self.companies.wf()
        &&& self.jobs_by_company.wf()
        &&& self@.wf()
    }

    /// A backend that holds nothing.
    pub fn new() -> (backend: Backend)
        ensures
            backend.wf(),
            backend@ == BackendView::empty(),
    {
        let backend = Backend {
            applicants: IdentityMap::new(),
            companies: IdentityMap::new(),
            job_ids: IdAllocator::new(),
            jobs: BTreeMap::new(),
            jobs_by_company: IdentityMap::new(),
            application_ids: IdAllocator::new(),
            applications: BTreeMap::new(),
            registry: SkillRegistry::new(),
        };
        proof {
            assert(backend@.applicants =~= Map::empty());
            assert(backend@.companies =~= Map::empty());
            assert(backend@.jobs =~= Map::empty());
            assert(backend@.jobs_by_company =~= Map::empty());
            assert(backend@.applications =~= Map::empty());
            BackendView::lemma_empty_wf();
        }
        backend
    }

    /// Succeeds if `caller` has no profile yet.
    pub fn is_valid_create_user(&self, caller: &Identity) -> (verdict: Result<(), Denial>)
        requires
            self.wf(),
        ensures
            verdict == self@.is_valid_create_user(caller@),
    {
        if self.companies.contains_key(caller) {
            Err(Denial::RoleConflict(crate::denial::Role::Company))
        } else if self.applicants.contains_key(caller) {
            Err(Denial::RoleConflict(crate::denial::Role::Applicant))
        } else {
            Ok(())
        }
    }

    /// Succeeds if `caller` has an applicant profile.
    pub fn is_valid_applicant(&self, caller: &Identity) -> (verdict: Result<(), Denial>)
        requires
            self.wf(),
        ensures
            verdict == self@.is_valid_applicant(caller@),
    {
        if self.applicants.contains_key(caller) {
            Ok(())
        } else {
            Err(Denial::NotApplicant)
        }
    }

    /// Succeeds if `caller` has a company profile.
    pub fn is_valid_company(&self, caller: &Identity) -> (verdict: Result<(), Denial>)
        requires
            self.wf(),
        ensures
            verdict == self@.is_valid_company(caller@),
    {
        if self.companies.contains_key(caller) {
            Ok(())
        } else {
            Err(Denial::NotCompany)
        }
    }

    /// The company store lists the company profiles of the view.
    proof fn lemma_company_listing(&self)
        requires
            self.wf(),
        ensures
            self@.company_listing() == views(self.companies.values_in_order()),
            self@.company_listing().len() == self.companies.listing().len(),
    {
        self.companies.lemma_listing();
        assert(self@.companies.dom() =~= self.companies@.dom());
        let keys = self.companies.listing();
        assert forall|i: int| 0 <= i < keys.len() implies self@.company_listing()[i] == views(
            self.companies.values_in_order(),
        )[i] by {
            assert(keys.contains(keys[i]));
        }
        assert(self@.company_listing() =~= views(self.companies.values_in_order()));
    }

    /// The applicant store lists the applicant profiles of the view.
    proof fn lemma_applicant_listing(&self)
        requires
            self.wf(),
        ensures
            self@.applicant_listing().len() == self.applicants.listing().len(),
            forall|i: int|
                0 <= i < self.applicants.listing().len() ==> #[trigger] self@.applicant_listing()[i]
                    == self.applicants.values_in_order()[i]@.response(),
    {
        self.applicants.lemma_listing();
        assert(self@.applicants.dom() =~= self.applicants@.dom());
        let keys = self.applicants.listing();
        assert forall|i: int| 0 <= i < keys.len() implies #[trigger] self@.applicant_listing()[i]
            == self.applicants.values_in_order()[i]@.response() by {
            assert(keys.contains(keys[i]));
        }
    }
}

/// Succeeds if `caller` is the company that owns `job`.
pub fn guard_owns_job(caller: &Identity, job: &Job) -> (verdict: Result<(), Denial>)
    ensures
        verdict == crate::model::guard_owns_job(caller@, job@),
{
    if job.company_id.same(caller) {
        Ok(())
    } else {
        Err(Denial::Unauthorized)
    }
}

/// Succeeds if `caller` is the applicant that owns `application`.
pub fn guard_owns_application(caller: &Identity, application: &Application) -> (verdict: Result<
    (),
    Denial,
>)
    ensures
        verdict == crate::model::guard_owns_application(caller@, application@),
{
    if application.applicant_id.same(caller) {
        Ok(())
    } else {
        Err(Denial::Unauthorized)
    }
}

} // verus!
