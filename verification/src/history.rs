//! Runs of operations.
//!
//! A request is one call of an operation that may change the stores. A run
//! applies a sequence of requests one after the other. What holds of every
//! run is stated here: the state stays well formed, and what was stored
//! stays stored.

use crate::model::BackendView;
use crate::records::{
    ApplicantParamsView, ApplicationParamsView, CompanyParamsView, JobParamsView, SkillView,
};
use vstd::prelude::*;

verus! {

/// One call of an operation that may change the stores.
#[allow(inconsistent_fields)]
pub enum Request {
    RegisterCompany { who: Seq<u8>, now: u64, params: CompanyParamsView },
    RegisterApplicant {
        who: Seq<u8>,
        now: u64,
        params: ApplicantParamsView,
        skills: Seq<SkillView>,
    },
    PostJob { who: Seq<u8>, params: JobParamsView, skills: Seq<SkillView> },
    FileApplication { who: Seq<u8>, params: ApplicationParamsView },
    MakeOffer { who: Seq<u8>, application_id: u64, job_id: u64, accept: bool },
    AcceptOffer { who: Seq<u8>, application_id: u64, accept: bool },
    CancelJob { who: Seq<u8>, id: u64 },
    WithdrawApplication { who: Seq<u8>, id: u64 },
}

impl BackendView {
    /// The state after `request`.
    pub open spec fn apply(self, request: Request) -> BackendView {
        match request {
            Request::RegisterCompany { who, now, params } => self.register_company(
                who,
                now,
                params,
            ),
            Request::RegisterApplicant { who, now, params, skills } => self.register_applicant(
                who,
                now,
                params,
                skills,
            ),
            Request::PostJob { who, params, skills } => self.post_job(who, params, skills),
            Request::FileApplication { who, params } => self.file_application(who, params),
            Request::MakeOffer { who, application_id, job_id, accept } => self.make_offer(
                who,
                application_id,
                job_id,
                accept,
            ),
            Request::AcceptOffer { who, application_id, accept } => self.accept_offer(
                who,
                application_id,
                accept,
            ),
            Request::CancelJob { who, id } => self.cancel_job(who, id),
            Request::WithdrawApplication { who, id } => self.withdraw_application(who, id),
        }
    }

    /// The state after the requests of `requests`, one after the other.
    pub open spec fn run(self, requests: Seq<Request>) -> BackendView
        decreases requests.len(),
    {
        if requests.len() == 0 {
            self
        } else {
            self.run(requests.drop_last()).apply(requests.last())
        }
    }

    /// Whether `later` holds all that this state holds: every profile as it
    /// is, every job and every application as it is but for its status, every
    /// registered skill as it is, and no counter below where it stands here.
    pub open spec fn kept_by(self, later: BackendView) -> bool {
        &&& forall|who: Seq<u8>| #[trigger]
            self.companies.contains_key(who) ==> later.companies.contains_key(who)
                && later.companies[who] == self.companies[who]
        &&& forall|who: Seq<u8>| #[trigger]
            self.applicants.contains_key(who) ==> later.applicants.contains_key(who)
                && later.applicants[who] == self.applicants[who]
        &&& self.last_job <= later.last_job
        &&& forall|id: u64| #[trigger]
            self.jobs.contains_key(id) ==> later.jobs.contains_key(id) && later.jobs[id]
                == self.jobs[id].with_status(later.jobs[id].status)
        &&& self.last_application <= later.last_application
        &&& forall|id: u64| #[trigger]
            self.applications.contains_key(id) ==> later.applications.contains_key(id)
                && later.applications[id] == self.applications[id].with_status(
                later.applications[id].status,
            )
        &&& self.registry.next <= later.registry.next
        &&& forall|id: u16| #[trigger]
            self.registry.skills.contains_key(id) ==> later.registry.skills.contains_key(id)
                && later.registry.skills[id] == self.registry.skills[id]
    }

    /// A request keeps the state well formed.
    pub proof fn lemma_apply_wf(self, request: Request)
        requires
            self.wf(),
        ensures
            self.apply(request).wf(),
    {
        match request {
            Request::RegisterCompany { who, now, params } => {
                self.lemma_register_company_wf(who, now, params);
            },
            Request::RegisterApplicant { who, now, params, skills } => {
                self.lemma_register_applicant_wf(who, now, params, skills);
            },
            Request::PostJob { who, params, skills } => {
                self.lemma_post_job_wf(who, params, skills);
            },
            Request::FileApplication { who, params } => {
                self.lemma_file_application_wf(who, params);
            },
            Request::MakeOffer { who, application_id, job_id, accept } => {
                self.lemma_make_offer_wf(who, application_id, job_id, accept);
            },
            Request::AcceptOffer { who, application_id, accept } => {
                self.lemma_accept_offer_wf(who, application_id, accept);
            },
            Request::CancelJob { who, id } => {
                self.lemma_cancel_job_wf(who, id);
            },
            Request::WithdrawApplication { who, id } => {
                self.lemma_withdraw_application_wf(who, id);
            },
        }
    }

    /// A request keeps what is stored.
    pub proof fn lemma_apply_keeps(self, request: Request)
        requires
            self.wf(),
        ensures
            self.kept_by(self.apply(request)),
    {
        match request {
            Request::RegisterApplicant { who, now, params, skills } => {
                self.registry.lemma_resolve(skills);
            },
            Request::PostJob { who, params, skills } => {
                self.registry.lemma_resolve(skills);
            },
            _ => {},
        }
    }

    /// What a state keeps of another, it keeps of every state that the other
    /// keeps.
    pub proof fn lemma_kept_by_transitive(self, middle: BackendView, later: BackendView)
        requires
            self.kept_by(middle),
            middle.kept_by(later),
        ensures
            self.kept_by(later),
    {
    }

    /// Every run keeps the state well formed and keeps what is stored.
    pub proof fn lemma_run(self, requests: Seq<Request>)
        requires
            self.wf(),
        ensures
            self.run(requests).wf(),
            self.kept_by(self.run(requests)),
        decreases requests.len(),
    {
        if requests.len() > 0 {
            let middle = self.run(requests.drop_last());
            self.lemma_run(requests.drop_last());
            middle.lemma_apply_wf(requests.last());
            middle.lemma_apply_keeps(requests.last());
            self.lemma_kept_by_transitive(middle, middle.apply(requests.last()));
        }
    }
}

} // verus!
