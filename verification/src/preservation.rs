//! Every operation keeps the state well formed.

use crate::model::{id_order, BackendView};
use crate::records::{
    ApplicantParamsView, ApplicationParamsView, ApplicationStatus, CompanyParamsView,
    JobParamsView, SkillView,
};
use vstd::prelude::*;

verus! {

impl BackendView {
    /// A state with the same index of jobs by company, the same jobs and the
    /// same owner of each job has an index that is in line with its jobs.
    proof fn lemma_same_owners(self, after: BackendView)
        requires
            self.wf(),
            after.jobs_by_company == self.jobs_by_company,
            forall|id: u64| self.jobs.contains_key(id) <==> after.jobs.contains_key(id),
            forall|id: u64| #[trigger]
                self.jobs.contains_key(id) ==> after.jobs[id].company_id
                    == self.jobs[id].company_id,
        ensures
            forall|who: Seq<u8>, id: u64|
                #![trigger after.jobs_by_company[who].contains(id)]
                #![trigger after.owns_job(who, id)]
                (after.jobs_by_company.contains_key(who) && after.jobs_by_company[who].contains(
                    id,
                )) <==> after.owns_job(who, id),
    {
        assert forall|who: Seq<u8>, id: u64|
            #![trigger after.jobs_by_company[who].contains(id)]
            #![trigger after.owns_job(who, id)]
            (after.jobs_by_company.contains_key(who) && after.jobs_by_company[who].contains(id))
                <==> after.owns_job(who, id) by {
            assert(after.owns_job(who, id) == self.owns_job(who, id));
        }
    }

    /// The state before anything happened is well formed.
    pub proof fn lemma_empty_wf()
        ensures
            BackendView::empty().wf(),
    {
    }

    /// Registering a company keeps the state well formed.
    pub proof fn lemma_register_company_wf(self, who: Seq<u8>, now: u64, params: CompanyParamsView)
        requires
            self.wf(),
        ensures
            self.register_company(who, now, params).wf(),
    {
        let after = self.register_company(who, now, params);
        if self.is_valid_create_user(who) is Ok {
            self.lemma_same_owners(after);
        }
    }

    /// Registering an applicant keeps the state well formed.
    pub proof fn lemma_register_applicant_wf(
        self,
        who: Seq<u8>,
        now: u64,
        params: ApplicantParamsView,
        requests: Seq<SkillView>,
    )
        requires
            self.wf(),
        ensures
            self.register_applicant(who, now, params, requests).wf(),
    {
        let after = self.register_applicant(who, now, params, requests);
        self.registry.lemma_resolve(requests);
        if self.is_valid_create_user(who) is Ok {
            self.lemma_same_owners(after);
        }
    }

    /// Creating a job keeps the state well formed.
    pub proof fn lemma_post_job_wf(self, who: Seq<u8>, params: JobParamsView, requests: Seq<SkillView>)
        requires
            self.wf(),
        ensures
            self.post_job(who, params, requests).wf(),
    {
        let after = self.post_job(who, params, requests);
        self.registry.lemma_resolve(requests);
        if let Ok(new_id) = self.can_post_job(who) {
            let before = self.jobs_of(who);
            let list = before.push(new_id);
            assert forall|w: Seq<u8>, id: u64|
                #![trigger after.jobs_by_company[w].contains(id)]
                #![trigger after.owns_job(w, id)]
                (after.jobs_by_company.contains_key(w) && after.jobs_by_company[w].contains(id))
                    <==> after.owns_job(w, id) by {
                if w == who {
                    if list.contains(id) {
                        let i = choose|i: int| 0 <= i < list.len() && list[i] == id;
                        if i < before.len() {
                            assert(before[i] == id);
                            assert(self.jobs_by_company[who].contains(id));
                            assert(self.owns_job(who, id));
                        }
                    }
                    if after.owns_job(who, id) {
                        if id == new_id {
                            assert(list[before.len() as int] == id);
                        } else {
                            assert(self.owns_job(who, id));
                            assert(self.jobs_by_company[who].contains(id));
                            let i = choose|i: int| 0 <= i < before.len() && before[i] == id;
                            assert(list[i] == id);
                        }
                    }
                } else {
                    assert(self.owns_job(w, id) == after.owns_job(w, id));
                }
            }
            assert forall|i: int, j: int| 0 <= i < j < list.len() implies id_order()(
                #[trigger] list[i],
                #[trigger] list[j],
            ) by {
                if j < before.len() {
                    assert(id_order()(before[i], before[j]));
                } else {
                    assert(before.contains(before[i]));
                    assert(self.jobs_by_company[who].contains(before[i]));
                    assert(self.owns_job(who, before[i]));
                }
            }
        }
    }

    /// Filing an application keeps the state well formed.
    pub proof fn lemma_file_application_wf(self, who: Seq<u8>, params: ApplicationParamsView)
        requires
            self.wf(),
        ensures
            self.file_application(who, params).wf(),
    {
        let after = self.file_application(who, params);
        if self.can_apply(who, params.job_id) is Ok {
            self.lemma_same_owners(after);
        }
    }

    /// Changing the status of an application keeps the state well formed.
    pub proof fn lemma_with_application_status_wf(self, id: u64, status: ApplicationStatus)
        requires
            self.wf(),
            self.applications.contains_key(id),
        ensures
            self.with_application_status(id, status).wf(),
    {
        let after = self.with_application_status(id, status);
        self.lemma_same_owners(after);
    }

    /// Deciding on an application keeps the state well formed.
    pub proof fn lemma_make_offer_wf(
        self,
        who: Seq<u8>,
        application_id: u64,
        job_id: u64,
        accept: bool,
    )
        requires
            self.wf(),
        ensures
            self.make_offer(who, application_id, job_id, accept).wf(),
    {
        if let Ok(status) = self.can_make_offer(who, application_id, job_id, accept) {
            self.lemma_with_application_status_wf(application_id, status);
        }
    }

    /// Answering an offer keeps the state well formed.
    pub proof fn lemma_accept_offer_wf(self, who: Seq<u8>, application_id: u64, accept: bool)
        requires
            self.wf(),
        ensures
            self.accept_offer(who, application_id, accept).wf(),
    {
        if let Ok(status) = self.can_accept_offer(who, application_id, accept) {
            self.lemma_with_application_status_wf(application_id, status);
        }
    }

    /// Withdrawing an application keeps the state well formed.
    pub proof fn lemma_withdraw_application_wf(self, who: Seq<u8>, id: u64)
        requires
            self.wf(),
        ensures
            self.withdraw_application(who, id).wf(),
    {
        if let Ok(status) = self.can_withdraw_application(who, id) {
            self.lemma_with_application_status_wf(id, status);
        }
    }

    /// Canceling a job keeps the state well formed.
    pub proof fn lemma_cancel_job_wf(self, who: Seq<u8>, id: u64)
        requires
            self.wf(),
        ensures
            self.cancel_job(who, id).wf(),
    {
        let after = self.cancel_job(who, id);
        if self.can_cancel_job(who, id) is Ok {
            self.lemma_same_owners(after);
        }
    }
}

} // verus!
