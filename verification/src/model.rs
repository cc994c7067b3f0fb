//! What the backend holds and what each operation makes of it.
//!
//! The state of the backend is a handful of maps and counters. Every
//! operation is a function on that state: one function says whether the
//! operation goes through, a second one gives the state after it. A refused
//! operation leaves the state as it is.

use crate::denial::{Denial, Role};
use crate::identity::identity_order;
use crate::ids::id_after;
use crate::order::{ascending_keys, is_ascending};
use crate::records::{
    ApplicantParamsView, ApplicantProfileResponseView, ApplicantProfileView,
    ApplicationParamsView, ApplicationStatus, ApplicationView, CompanyParamsView,
    CompanyProfileView, JobParamsView, JobResponseView, JobStatus, JobView, SkillView,
};
use crate::skills::{keyed_by_id, RegistryView};
use vstd::prelude::*;

verus! {

/// What a [`crate::backend::Backend`] stands for: the state of the stores.
pub struct BackendView {
    /// The applicant profiles by owner.
    pub applicants: Map<Seq<u8>, ApplicantProfileView>,
    /// The company profiles by owner.
    pub companies: Map<Seq<u8>, CompanyProfileView>,
    /// The id of the job created last, or 0.
    pub last_job: u64,
    /// The jobs by id.
    pub jobs: Map<u64, JobView>,
    /// For each company that has created a job, the ids of its jobs.
    pub jobs_by_company: Map<Seq<u8>, Seq<u64>>,
    /// The id of the application filed last, or 0.
    pub last_application: u64,
    /// The applications by id.
    pub applications: Map<u64, ApplicationView>,
    /// The skill registry.
    pub registry: RegistryView,
}

/// The order of job ids and of application ids.
pub open spec fn id_order() -> spec_fn(u64, u64) -> bool {
    |a: u64, b: u64| a < b
}

/// Succeeds if `who` is the company that owns `job`.
pub open spec fn guard_owns_job(who: Seq<u8>, job: JobView) -> Result<(), Denial> {
    if job.company_id == who {
        Ok(())
    } else {
        Err(Denial::Unauthorized)
    }
}

/// Succeeds if `who` is the applicant that owns `application`.
pub open spec fn guard_owns_application(who: Seq<u8>, application: ApplicationView) -> Result<
    (),
    Denial,
> {
    if application.applicant_id == who {
        Ok(())
    } else {
        Err(Denial::Unauthorized)
    }
}

impl BackendView {
    /// The state before anything happened.
    pub open spec fn empty() -> BackendView {
        BackendView {
            applicants: Map::empty(),
            companies: Map::empty(),
            last_job: 0,
            jobs: Map::empty(),
            jobs_by_company: Map::empty(),
            last_application: 0,
            applications: Map::empty(),
            registry: RegistryView::empty(),
        }
    }

    /// Whether `who` is the company that owns the job `id`.
    pub open spec fn owns_job(self, who: Seq<u8>, id: u64) -> bool {
        self.jobs.contains_key(id) && self.jobs[id].company_id == who
    }

    /// The ids of the jobs of company `who`, in the order of their creation.
    pub open spec fn jobs_of(self, who: Seq<u8>) -> Seq<u64> {
        if self.jobs_by_company.contains_key(who) {
            self.jobs_by_company[who]
        } else {
            Seq::empty()
        }
    }

    /// What holds of every state that the operations reach:
    /// there are finitely many profiles, no identity is both a company and an
    /// applicant, and a profile is stored under its owner; the jobs are those
    /// with the ids 1 to `last_job`, each stored under its id and owned by a
    /// company with a profile; the applications are those with the ids 1 to
    /// `last_application`, each stored under its id, for a job that exists, by
    /// an applicant with a profile; no skill set holds an id twice; the index
    /// of jobs by company lists for each company exactly the jobs it owns, in
    /// ascending order; and the registry is well formed.
    pub open spec fn wf(self) -> bool {
        &&& self.registry.wf()
        &&& self.companies.dom().finite()
        &&& self.applicants.dom().finite()
        &&& forall|who: Seq<u8>| #[trigger]
            self.companies.contains_key(who) ==> !self.applicants.contains_key(who)
                && self.companies[who].id == who
        &&& forall|who: Seq<u8>| #[trigger]
            self.applicants.contains_key(who) ==> self.applicants[who].id == who && keyed_by_id(
                self.applicants[who].skills,
            )
        &&& forall|id: u64| #[trigger] self.jobs.contains_key(id) <==> 1 <= id <= self.last_job
        &&& forall|id: u64| #[trigger]
            self.jobs.contains_key(id) ==> self.jobs[id].id == id && self.companies.contains_key(
                self.jobs[id].company_id,
            ) && keyed_by_id(self.jobs[id].required_skills)
        &&& forall|id: u64| #[trigger]
            self.applications.contains_key(id) <==> 1 <= id <= self.last_application
        &&& forall|id: u64| #[trigger]
            self.applications.contains_key(id) ==> self.applications[id].id == id
                && self.jobs.contains_key(self.applications[id].job_id)
                && self.applicants.contains_key(self.applications[id].applicant_id)
        &&& forall|who: Seq<u8>, id: u64|
            #![trigger self.jobs_by_company[who].contains(id)]
            #![trigger self.owns_job(who, id)]
            (self.jobs_by_company.contains_key(who) && self.jobs_by_company[who].contains(id))
                <==> self.owns_job(who, id)
        &&& forall|who: Seq<u8>| #[trigger]
            self.jobs_by_company.contains_key(who) ==> is_ascending(
                self.jobs_by_company[who],
                id_order(),
            )
    }

    /// Succeeds if `who` has no profile yet.
    pub open spec fn is_valid_create_user(self, who: Seq<u8>) -> Result<(), Denial> {
        if self.companies.contains_key(who) {
            Err(Denial::RoleConflict(Role::Company))
        } else if self.applicants.contains_key(who) {
            Err(Denial::RoleConflict(Role::Applicant))
        } else {
            Ok(())
        }
    }

    /// Succeeds if `who` has an applicant profile.
    pub open spec fn is_valid_applicant(self, who: Seq<u8>) -> Result<(), Denial> {
        if self.applicants.contains_key(who) {
            Ok(())
        } else {
            Err(Denial::NotApplicant)
        }
    }

    /// Succeeds if `who` has a company profile.
    pub open spec fn is_valid_company(self, who: Seq<u8>) -> Result<(), Denial> {
        if self.companies.contains_key(who) {
            Ok(())
        } else {
            Err(Denial::NotCompany)
        }
    }

    /// The state after `who` asked for a company profile.
    pub open spec fn register_company(
        self,
        who: Seq<u8>,
        now: u64,
        params: CompanyParamsView,
    ) -> BackendView {
        match self.is_valid_create_user(who) {
            Ok(_) => BackendView {
                companies: self.companies.insert(who, params.profile(who, now)),
                ..self
            },
            Err(_) => self,
        }
    }

    /// The state after `who` asked for an applicant profile with the skills
    /// `requests`.
    pub open spec fn register_applicant(
        self,
        who: Seq<u8>,
        now: u64,
        params: ApplicantParamsView,
        requests: Seq<SkillView>,
    ) -> BackendView {
        match self.is_valid_create_user(who) {
            Ok(_) => {
                let (registry, skills) = self.registry.resolve(requests);
                BackendView {
                    applicants: self.applicants.insert(who, params.profile(who, now, skills)),
                    registry,
                    ..self
                }
            },
            Err(_) => self,
        }
    }

    /// The id of the job that `who` may create, or the reason for which it may
    /// not: `who` is no company, or the job ids are used up.
    pub open spec fn can_post_job(self, who: Seq<u8>) -> Result<u64, Denial> {
        match self.is_valid_company(who) {
            Err(denial) => Err(denial),
            Ok(_) => match id_after(self.last_job) {
                Some(id) => Ok(id),
                None => Err(Denial::IdsExhausted),
            },
        }
    }

    /// The state after `who` asked for a job with the required skills
    /// `requests`.
    pub open spec fn post_job(
        self,
        who: Seq<u8>,
        params: JobParamsView,
        requests: Seq<SkillView>,
    ) -> BackendView {
        match self.can_post_job(who) {
            Ok(id) => {
                let (registry, skills) = self.registry.resolve(requests);
                BackendView {
                    last_job: id,
                    jobs: self.jobs.insert(id, params.job(id, who, skills)),
                    jobs_by_company: self.jobs_by_company.insert(who, self.jobs_of(who).push(id)),
                    registry,
                    ..self
                }
            },
            Err(_) => self,
        }
    }

    /// The id of the application that `who` may file for the job `job_id`, or
    /// the reason for which it may not: `who` is no applicant, there is no
    /// such job, or the application ids are used up.
    pub open spec fn can_apply(self, who: Seq<u8>, job_id: u64) -> Result<u64, Denial> {
        match self.is_valid_applicant(who) {
            Err(denial) => Err(denial),
            Ok(_) => if !self.jobs.contains_key(job_id) {
                Err(Denial::JobNotFound)
            } else {
                match id_after(self.last_application) {
                    Some(id) => Ok(id),
                    None => Err(Denial::IdsExhausted),
                }
            },
        }
    }

    /// The state after `who` asked to apply to a job.
    pub open spec fn file_application(
        self,
        who: Seq<u8>,
        params: ApplicationParamsView,
    ) -> BackendView {
        match self.can_apply(who, params.job_id) {
            Ok(id) => BackendView {
                last_application: id,
                applications: self.applications.insert(id, params.application(id, who)),
                ..self
            },
            Err(_) => self,
        }
    }

    /// The status that the application gets when company `who` decides on it
    /// as an application to its job `job_id`, or the reason for which it may
    /// not decide: there is no such job, `who` does not own it, there is no
    /// such application, it is for another job, or it is not in the status
    /// `Applied`.
    pub open spec fn can_make_offer(
        self,
        who: Seq<u8>,
        application_id: u64,
        job_id: u64,
        accept: bool,
    ) -> Result<ApplicationStatus, Denial> {
        if !self.jobs.contains_key(job_id) {
            Err(Denial::JobNotFound)
        } else if guard_owns_job(who, self.jobs[job_id]) is Err {
            Err(Denial::Unauthorized)
        } else if !self.applications.contains_key(application_id) {
            Err(Denial::ApplicationNotFound)
        } else if self.applications[application_id].job_id != job_id {
            Err(Denial::Unauthorized)
        } else {
            match self.applications[application_id].status.after_decision(accept) {
                Some(status) => Ok(status),
                None => Err(Denial::InvalidStatus),
            }
        }
    }

    /// The state after company `who` asked to decide on an application.
    pub open spec fn make_offer(
        self,
        who: Seq<u8>,
        application_id: u64,
        job_id: u64,
        accept: bool,
    ) -> BackendView {
        match self.can_make_offer(who, application_id, job_id, accept) {
            Ok(status) => self.with_application_status(application_id, status),
            Err(_) => self,
        }
    }

    /// The status that the application gets when applicant `who` answers the
    /// offer, or the reason for which it may not answer: there is no such
    /// application, `who` does not own it, or it is not in the status `Offer`.
    pub open spec fn can_accept_offer(
        self,
        who: Seq<u8>,
        application_id: u64,
        accept: bool,
    ) -> Result<ApplicationStatus, Denial> {
        if !self.applications.contains_key(application_id) {
            Err(Denial::ApplicationNotFound)
        } else if guard_owns_application(who, self.applications[application_id]) is Err {
            Err(Denial::Unauthorized)
        } else {
            match self.applications[application_id].status.after_answer(accept) {
                Some(status) => Ok(status),
                None => Err(Denial::InvalidStatus),
            }
        }
    }

    /// The state after applicant `who` asked to answer an offer.
    pub open spec fn accept_offer(
        self,
        who: Seq<u8>,
        application_id: u64,
        accept: bool,
    ) -> BackendView {
        match self.can_accept_offer(who, application_id, accept) {
            Ok(status) => self.with_application_status(application_id, status),
            Err(_) => self,
        }
    }

    /// The status that the job gets when company `who` cancels it, or the
    /// reason for which it may not: there is no such job, `who` does not own
    /// it, or it is not open.
    pub open spec fn can_cancel_job(self, who: Seq<u8>, id: u64) -> Result<JobStatus, Denial> {
        if !self.jobs.contains_key(id) {
            Err(Denial::JobNotFound)
        } else if guard_owns_job(who, self.jobs[id]) is Err {
            Err(Denial::Unauthorized)
        } else {
            match self.jobs[id].status.after_cancel() {
                Some(status) => Ok(status),
                None => Err(Denial::InvalidStatus),
            }
        }
    }

    /// The state after company `who` asked to cancel a job.
    pub open spec fn cancel_job(self, who: Seq<u8>, id: u64) -> BackendView {
        match self.can_cancel_job(who, id) {
            Ok(status) => BackendView {
                jobs: self.jobs.insert(id, self.jobs[id].with_status(status)),
                ..self
            },
            Err(_) => self,
        }
    }

    /// The status that the application gets when applicant `who` withdraws
    /// it, or the reason for which it may not: there is no such application,
    /// `who` does not own it, or it was rejected or withdrawn before.
    pub open spec fn can_withdraw_application(self, who: Seq<u8>, id: u64) -> Result<
        ApplicationStatus,
        Denial,
    > {
        if !self.applications.contains_key(id) {
            Err(Denial::ApplicationNotFound)
        } else if guard_owns_application(who, self.applications[id]) is Err {
            Err(Denial::Unauthorized)
        } else {
            match self.applications[id].status.after_withdrawal() {
                Some(status) => Ok(status),
                None => Err(Denial::InvalidStatus),
            }
        }
    }

    /// The state after applicant `who` asked to withdraw an application.
    pub open spec fn withdraw_application(self, who: Seq<u8>, id: u64) -> BackendView {
        match self.can_withdraw_application(who, id) {
            Ok(status) => self.with_application_status(id, status),
            Err(_) => self,
        }
    }

    /// This state with the application `id` in the status `status`.
    pub open spec fn with_application_status(
        self,
        id: u64,
        status: ApplicationStatus,
    ) -> BackendView {
        BackendView {
            applications: self.applications.insert(id, self.applications[id].with_status(status)),
            ..self
        }
    }

    /// The company profiles in the order of their owners' identities.
    pub open spec fn company_listing(self) -> Seq<CompanyProfileView> {
        ascending_keys(self.companies.dom(), identity_order()).map_values(
            |who: Seq<u8>| self.companies[who],
        )
    }

    /// The applicant profiles, as they are handed out, in the order of their
    /// owners' identities.
    pub open spec fn applicant_listing(self) -> Seq<ApplicantProfileResponseView> {
        ascending_keys(self.applicants.dom(), identity_order()).map_values(
            |who: Seq<u8>| self.applicants[who].response(),
        )
    }

    /// The jobs, as they are handed out, in ascending order of their ids.
    pub open spec fn job_listing(self) -> Seq<JobResponseView> {
        Seq::new(self.last_job as nat, |i: int| self.jobs[(i + 1) as u64].response())
    }

    /// The applications in ascending order of their ids.
    pub open spec fn application_listing(self) -> Seq<ApplicationView> {
        Seq::new(self.last_application as nat, |i: int| self.applications[(i + 1) as u64])
    }

    /// Whether `application` is one of applicant `who`.
    pub open spec fn filed_by(who: Seq<u8>) -> spec_fn(ApplicationView) -> bool {
        |application: ApplicationView| application.applicant_id == who
    }

    /// Whether `application` is for a job of company `who`.
    pub open spec fn filed_with(self, who: Seq<u8>) -> spec_fn(ApplicationView) -> bool {
        |application: ApplicationView| self.owns_job(who, application.job_id)
    }
}

} // verus!
