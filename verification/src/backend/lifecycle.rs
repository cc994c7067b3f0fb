//! The operations that change the stores.

use super::{guard_owns_application, guard_owns_job, Backend};
use crate::denial::Denial;
use crate::identity::Identity;
use crate::records::{
    skill_seq_view, Application, ApplicantParams, ApplicantProfile, ApplicationParams,
    ApplicationStatus, CompanyParams, CompanyProfile, Job, JobParams, JobStatus, Skill,
};
use crate::skills::update_skill;
use vstd::prelude::*;

verus! {

impl Backend {
    /// Stores a company profile for `caller`, made of `params` as they are,
    /// unless `caller` has a profile already.
    pub fn register_company(&mut self, caller: &Identity, now: u64, params: CompanyParams) -> (done:
        Result<(), Denial>)
        requires
            old(self).wf(),
        ensures
            final(self).wf(),
            done == old(self)@.is_valid_create_user(caller@),
            final(self)@ == old(self)@.register_company(caller@, now, params@),
    {
        match self.is_valid_create_user(caller) {
            Err(denial) => {
                return Err(denial);
            },
            Ok(_) => {},
        }
        let profile = CompanyProfile {
            id: caller.clone(),
            name: params.name,
            logo: params.logo,
            twitter: params.twitter,
            website: params.website,
            created_at: now,
        };
        self.companies.insert(caller.clone(), profile);
        proof {
            let after = old(self)@.register_company(caller@, now, params@);
            assert(self@.companies =~= after.companies);
            old(self)@.lemma_register_company_wf(caller@, now, params@);
        }
        Ok(())
    }

    /// Stores a company profile for `caller`, made of `params` in lowercase,
    /// unless `caller` has a profile already.
    pub fn create_company_profile(
        &mut self,
        caller: &Identity,
        now: u64,
        params: CompanyParams,
    ) -> (done: Result<(), Denial>)
        requires
            old(self).wf(),
        ensures
            final(self).wf(),
            done == old(self)@.is_valid_create_user(caller@),
            final(self)@ == old(self)@.register_company(caller@, now, params@.lowercased()),
    {
        self.register_company(caller, now, params.lowercased())
    }

    /// Stores an applicant profile for `caller`, made of `params` as they are
    /// and of the skill set that `skills` resolve to, unless `caller` has a
    /// profile already.
    pub fn register_applicant(
        &mut self,
        caller: &Identity,
        now: u64,
        params: ApplicantParams,
        skills: Vec<Skill>,
    ) -> (done: Result<(), Denial>)
        requires
            old(self).wf(),
        ensures
            final(self).wf(),
            done == old(self)@.is_valid_create_user(caller@),
            final(self)@ == old(self)@.register_applicant(
                caller@,
                now,
                params@,
                skill_seq_view(skills@),
            ),
    {
        match self.is_valid_create_user(caller) {
            Err(denial) => {
                return Err(denial);
            },
            Ok(_) => {},
        }
        let ghost requests = skill_seq_view(skills@);
        let resolved = update_skill(&mut self.registry, skills);
        let profile = ApplicantProfile {
            id: caller.clone(),
            first_name: params.first_name,
            last_name: params.last_name,
            nickname: params.nickname,
            bio: params.bio,
            created_at: now,
            skills: resolved,
        };
        self.applicants.insert(caller.clone(), profile);
        proof {
            let after = old(self)@.register_applicant(caller@, now, params@, requests);
            assert(self@.applicants =~= after.applicants);
            old(self)@.lemma_register_applicant_wf(caller@, now, params@, requests);
        }
        Ok(())
    }

    /// Stores an applicant profile for `caller`, made of `params` in lowercase
    /// and of the skill set that `skills` resolve to, unless `caller` has a
    /// profile already.
    pub fn create_applicant_profile(
        &mut self,
        caller: &Identity,
        now: u64,
        params: ApplicantParams,
        skills: Vec<Skill>,
    ) -> (done: Result<(), Denial>)
        requires
            old(self).wf(),
        ensures
            final(self).wf(),
            done == old(self)@.is_valid_create_user(caller@),
            final(self)@ == old(self)@.register_applicant(
                caller@,
                now,
                params@.lowercased(),
                skill_seq_view(skills@),
            ),
    {
        self.register_applicant(caller, now, params.lowercased(), skills)
    }

    /// Creates an open job of company `caller`, made of `params` as they are
    /// and of the skill set that `skills` resolve to, and returns its id.
    pub fn post_job(&mut self, caller: &Identity, params: JobParams, skills: Vec<Skill>) -> (id:
        Result<u64, Denial>)
        requires
            old(self).wf(),
        ensures
            final(self).wf(),
            id == old(self)@.can_post_job(caller@),
            final(self)@ == old(self)@.post_job(caller@, params@, skill_seq_view(skills@)),
    {
        match self.is_valid_company(caller) {
            Err(denial) => {
                return Err(denial);
            },
            Ok(_) => {},
        }
        let id: u64 = match self.job_ids.next() {
            Some(id) => id,
            None => {
                return Err(Denial::IdsExhausted);
            },
        };
        let ghost requests = skill_seq_view(skills@);
        let required = update_skill(&mut self.registry, skills);
        let job = Job {
            id,
            company_id: caller.clone(),
            position: params.position,
            description: params.description,
            bounty: params.bounty,
            status: JobStatus::Open,
            required_skills: required,
        };
        self.jobs.insert(id, job);
        let mut owned: Vec<u64> = match self.jobs_by_company.get(caller) {
            Some(ids) => ids.clone(),
            None => Vec::new(),
        };
        owned.push(id);
        self.jobs_by_company.insert(caller.clone(), owned);
        proof {
            let after = old(self)@.post_job(caller@, params@, requests);
            assert(self@.jobs =~= after.jobs);
            assert(self@.jobs_by_company =~= after.jobs_by_company);
            old(self)@.lemma_post_job_wf(caller@, params@, requests);
        }
        Ok(id)
    }

    /// Creates an open job of company `caller`, made of `params` in lowercase
    /// and of the skill set that `skills` resolve to, and returns its id.
    pub fn create_job(&mut self, caller: &Identity, params: JobParams, skills: Vec<Skill>) -> (id:
        Result<u64, Denial>)
        requires
            old(self).wf(),
        ensures
            final(self).wf(),
            id == old(self)@.can_post_job(caller@),
            final(self)@ == old(self)@.post_job(
                caller@,
                params@.lowercased(),
                skill_seq_view(skills@),
            ),
    {
        self.post_job(caller, params.lowercased(), skills)
    }

    /// Files an application of applicant `caller`, made of `params` as they
    /// are, and returns its id.
    pub fn file_application(&mut self, caller: &Identity, params: ApplicationParams) -> (id: Result<
        u64,
        Denial,
    >)
        requires
            old(self).wf(),
        ensures
            final(self).wf(),
            id == old(self)@.can_apply(caller@, params.job_id),
            final(self)@ == old(self)@.file_application(caller@, params@),
    {
        match self.is_valid_applicant(caller) {
            Err(denial) => {
                return Err(denial);
            },
            Ok(_) => {},
        }
        if self.jobs.get(&params.job_id).is_none() {
            return Err(Denial::JobNotFound);
        }
        let id: u64 = match self.application_ids.next() {
            Some(id) => id,
            None => {
                return Err(Denial::IdsExhausted);
            },
        };
        let application = Application {
            id,
            applicant_id: caller.clone(),
            job_id: params.job_id,
            contact_email: params.contact_email,
            status: ApplicationStatus::Applied,
            salary_from: params.salary_from,
            salary_to: params.salary_to,
        };
        self.applications.insert(id, application);
        proof {
            let after = old(self)@.file_application(caller@, params@);
            assert(self@.applications =~= after.applications);
            old(self)@.lemma_file_application_wf(caller@, params@);
        }
        Ok(id)
    }

    /// Files an application of applicant `caller`, made of `params` in
    /// lowercase, and returns its id.
    pub fn apply_to_job(&mut self, caller: &Identity, params: ApplicationParams) -> (id: Result<
        u64,
        Denial,
    >)
        requires
            old(self).wf(),
        ensures
            final(self).wf(),
            id == old(self)@.can_apply(caller@, params.job_id),
            final(self)@ == old(self)@.file_application(caller@, params@.lowercased()),
    {
        self.file_application(caller, params.lowercased())
    }

    /// Puts the application `id` into the status `status`.
    fn set_application_status(&mut self, id: u64, status: ApplicationStatus)
        requires
            old(self).wf(),
            old(self)@.applications.contains_key(id),
        ensures
            final(self).wf(),
            final(self)@ == old(self)@.with_application_status(id, status),
    {
        let mut application: Application = match self.applications.get(&id) {
            Some(stored) => stored.clone(),
            None => {
                return;
            },
        };
        application.status = status;
        self.applications.insert(id, application);
        proof {
            let after = old(self)@.with_application_status(id, status);
            assert(self@.applications =~= after.applications);
            old(self)@.lemma_with_application_status_wf(id, status);
        }
    }

    /// Decides on the application `application_id` as company `caller`, owner
    /// of the job `job_id` that it is for: an application in the status
    /// `Applied` gets an offer if `accept`, and is rejected if not. Returns the
    /// new status.
    pub fn make_offer(
        &mut self,
        caller: &Identity,
        application_id: u64,
        job_id: u64,
        accept: bool,
    ) -> (status: Result<ApplicationStatus, Denial>)
        requires
            old(self).wf(),
        ensures
            final(self).wf(),
            status == old(self)@.can_make_offer(caller@, application_id, job_id, accept),
            final(self)@ == old(self)@.make_offer(caller@, application_id, job_id, accept),
    {
        match self.jobs.get(&job_id) {
            None => {
                return Err(Denial::JobNotFound);
            },
            Some(job) => {
                if guard_owns_job(caller, job).is_err() {
                    return Err(Denial::Unauthorized);
                }
            },
        }
        let current: ApplicationStatus = match self.applications.get(&application_id) {
            None => {
                return Err(Denial::ApplicationNotFound);
            },
            Some(application) => {
                if application.job_id != job_id {
                    return Err(Denial::Unauthorized);
                }
                application.status
            },
        };
        match current.decide(accept) {
            None => Err(Denial::InvalidStatus),
            Some(status) => {
                self.set_application_status(application_id, status);
                Ok(status)
            },
        }
    }

    /// Answers the offer made for the application `application_id` as
    /// applicant `caller`: an application in the status `Offer` is accepted if
    /// `accept`, and rejected if not. Returns the new status.
    pub fn accept_offer(&mut self, caller: &Identity, application_id: u64, accept: bool) -> (status:
        Result<ApplicationStatus, Denial>)
        requires
            old(self).wf(),
        ensures
            final(self).wf(),
            status == old(self)@.can_accept_offer(caller@, application_id, accept),
            final(self)@ == old(self)@.accept_offer(caller@, application_id, accept),
    {
        let current: ApplicationStatus = match self.applications.get(&application_id) {
            None => {
                return Err(Denial::ApplicationNotFound);
            },
            Some(application) => {
                if guard_owns_application(caller, application).is_err() {
                    return Err(Denial::Unauthorized);
                }
                application.status
            },
        };
        match current.answer(accept) {
            None => Err(Denial::InvalidStatus),
            Some(status) => {
                self.set_application_status(application_id, status);
                Ok(status)
            },
        }
    }

    /// Cancels the open job `id` as company `caller`. Returns the new status.
    pub fn cancel_job(&mut self, caller: &Identity, id: u64) -> (status: Result<JobStatus, Denial>)
        requires
            old(self).wf(),
        ensures
            final(self).wf(),
            status == old(self)@.can_cancel_job(caller@, id),
            final(self)@ == old(self)@.cancel_job(caller@, id),
    {
        let mut job: Job = match self.jobs.get(&id) {
            None => {
                return Err(Denial::JobNotFound);
            },
            Some(stored) => {
                if guard_owns_job(caller, stored).is_err() {
                    return Err(Denial::Unauthorized);
                }
                stored.clone()
            },
        };
        match job.status.cancel() {
            None => Err(Denial::InvalidStatus),
            Some(status) => {
                job.status = status;
                self.jobs.insert(id, job);
                proof {
                    let after = old(self)@.cancel_job(caller@, id);
                    assert(self@.jobs =~= after.jobs);
                    old(self)@.lemma_cancel_job_wf(caller@, id);
                }
                Ok(status)
            },
        }
    }

    /// Withdraws the application `id` as applicant `caller`, unless it was
    /// rejected or withdrawn before. Returns the new status.
    pub fn withdraw_application(&mut self, caller: &Identity, id: u64) -> (status: Result<
        ApplicationStatus,
        Denial,
    >)
        requires
            old(self).wf(),
        ensures
            final(self).wf(),
            status == old(self)@.can_withdraw_application(caller@, id),
            final(self)@ == old(self)@.withdraw_application(caller@, id),
    {
        let current: ApplicationStatus = match self.applications.get(&id) {
            None => {
                return Err(Denial::ApplicationNotFound);
            },
            Some(application) => {
                if guard_owns_application(caller, application).is_err() {
                    return Err(Denial::Unauthorized);
                }
                application.status
            },
        };
        match current.withdraw() {
            None => Err(Denial::InvalidStatus),
            Some(status) => {
                self.set_application_status(id, status);
                Ok(status)
            },
        }
    }
}

} // verus!
