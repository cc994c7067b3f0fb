//! The operations that read the stores.

use super::Backend;
use crate::identity::Identity;
use crate::pagination::{
    into_page, lemma_scan_done, lemma_scan_step, page, page_views, scan, views, window,
};
use crate::model::BackendView;
use crate::records::{Application, ApplicantProfileResponse, CompanyProfile, JobResponse, Skill};
use vstd::prelude::*;

verus! {

/// Whether `ids` holds `id`.
fn holds_id(ids: &Vec<u64>, id: u64) -> (held: bool)
    ensures
        held == ids@.contains(id),
{
    let mut i: usize = 0;
    while i < ids.len()
        invariant
            i <= ids@.len(),
            forall|j: int| 0 <= j < i ==> ids@[j] != id,
        decreases ids@.len() - i,
    {
        if ids[i] == id {
            return true;
        }
        i = i + 1;
    }
    false
}

impl Backend {
    /// The profile of company `id`.
    pub fn get_company(&self, id: &Identity) -> (found: Option<CompanyProfile>)
        requires
            self.wf(),
        ensures
            match found {
                Some(profile) => self@.companies.contains_key(id@) && profile@
                    == self@.companies[id@],
                None => !self@.companies.contains_key(id@),
            },
    {
        match self.companies.get(id) {
            Some(profile) => Some(profile.clone()),
            None => None,
        }
    }

    /// The profile of applicant `id`, as it is handed out.
    pub fn get_applicant(&self, id: &Identity) -> (found: Option<ApplicantProfileResponse>)
        requires
            self.wf(),
        ensures
            match found {
                Some(profile) => self@.applicants.contains_key(id@) && profile@
                    == self@.applicants[id@].response(),
                None => !self@.applicants.contains_key(id@),
            },
    {
        match self.applicants.get(id) {
            Some(profile) => Some(profile.response()),
            None => None,
        }
    }

    /// The job `id`, as it is handed out.
    pub fn get_job(&self, id: u64) -> (found: Option<JobResponse>)
        requires
            self.wf(),
        ensures
            match found {
                Some(job) => self@.jobs.contains_key(id) && job@ == self@.jobs[id].response(),
                None => !self@.jobs.contains_key(id),
            },
    {
        match self.jobs.get(&id) {
            Some(job) => Some(job.response()),
            None => None,
        }
    }

    /// The application `id`.
    pub fn get_application(&self, id: u64) -> (found: Option<Application>)
        requires
            self.wf(),
        ensures
            match found {
                Some(application) => self@.applications.contains_key(id) && application@
                    == self@.applications[id],
                None => !self@.applications.contains_key(id),
            },
    {
        match self.applications.get(&id) {
            Some(application) => Some(application.clone()),
            None => None,
        }
    }

    /// The registered skills at the positions `offset`, `offset + 1`, ... of
    /// the registry, at most `limit` of them.
    pub fn get_skill_list(&self, offset: u16, limit: u16) -> (found: Option<Vec<Skill>>)
        requires
            self.wf(),
        ensures
            page_views(found) == page(
                window(self@.registry.listing(), offset as nat, limit as nat),
            ),
    {
        let ghost listing = self@.registry.listing();
        let n: u16 = self.registry.count();
        let mut data: Vec<Skill> = Vec::new();
        if offset < n {
            let end: u16 = if limit < n - offset {
                offset + limit
            } else {
                n
            };
            let mut id: u16 = offset;
            assert(views(data@) =~= listing.subrange(offset as int, id as int));
            while id < end
                invariant
                    self.wf(),
                    listing == self@.registry.listing(),
                    n == self@.registry.next,
                    offset <= id <= end <= n,
                    views(data@) == listing.subrange(offset as int, id as int),
                decreases end - id,
            {
                let ghost before = views(data@);
                assert(self@.registry.skills.contains_key(id));
                match self.registry.get(id) {
                    Some(skill) => {
                        data.push(skill.clone());
                    },
                    None => {},
                }
                assert(views(data@) =~= before.push(listing[id as int]));
                id = id + 1;
                assert(views(data@) =~= listing.subrange(offset as int, id as int));
            }
            assert(views(data@) =~= window(listing, offset as nat, limit as nat));
        }
        into_page(data)
    }

    /// The jobs at the positions `offset`, `offset + 1`, ... of the jobs in
    /// ascending order of their ids, at most `limit` of them.
    pub fn get_job_list(&self, offset: u64, limit: u64) -> (found: Option<Vec<JobResponse>>)
        requires
            self.wf(),
        ensures
            page_views(found) == page(window(self@.job_listing(), offset as nat, limit as nat)),
    {
        let ghost listing = self@.job_listing();
        let n: u64 = self.job_ids.last();
        let mut data: Vec<JobResponse> = Vec::new();
        if offset < n {
            let end: u64 = if limit < n - offset {
                offset + limit
            } else {
                n
            };
            let mut i: u64 = offset;
            assert(views(data@) =~= listing.subrange(offset as int, i as int));
            while i < end
                invariant
                    self.wf(),
                    listing == self@.job_listing(),
                    n == self@.last_job,
                    offset <= i <= end <= n,
                    views(data@) == listing.subrange(offset as int, i as int),
                decreases end - i,
            {
                let ghost before = views(data@);
                assert(self@.jobs.contains_key((i + 1) as u64));
                match self.jobs.get(&(i + 1)) {
                    Some(job) => {
                        data.push(job.response());
                    },
                    None => {},
                }
                assert(views(data@) =~= before.push(listing[i as int]));
                i = i + 1;
                assert(views(data@) =~= listing.subrange(offset as int, i as int));
            }
            assert(views(data@) =~= window(listing, offset as nat, limit as nat));
        }
        into_page(data)
    }

    /// The applications at the positions `offset`, `offset + 1`, ... of the
    /// applications in ascending order of their ids, at most `limit` of them.
    pub fn get_application_list(&self, offset: u64, limit: u64) -> (found: Option<Vec<Application>>)
        requires
            self.wf(),
        ensures
            page_views(found) == page(
                window(self@.application_listing(), offset as nat, limit as nat),
            ),
    {
        let ghost listing = self@.application_listing();
        let n: u64 = self.application_ids.last();
        let mut data: Vec<Application> = Vec::new();
        if offset < n {
            let end: u64 = if limit < n - offset {
                offset + limit
            } else {
                n
            };
            let mut i: u64 = offset;
            assert(views(data@) =~= listing.subrange(offset as int, i as int));
            while i < end
                invariant
                    self.wf(),
                    listing == self@.application_listing(),
                    n == self@.last_application,
                    offset <= i <= end <= n,
                    views(data@) == listing.subrange(offset as int, i as int),
                decreases end - i,
            {
                let ghost before = views(data@);
                assert(self@.applications.contains_key((i + 1) as u64));
                match self.applications.get(&(i + 1)) {
                    Some(application) => {
                        data.push(application.clone());
                    },
                    None => {},
                }
                assert(views(data@) =~= before.push(listing[i as int]));
                i = i + 1;
                assert(views(data@) =~= listing.subrange(offset as int, i as int));
            }
            assert(views(data@) =~= window(listing, offset as nat, limit as nat));
        }
        into_page(data)
    }

    /// The company profiles at the positions `offset`, `offset + 1`, ... of
    /// the profiles in the order of their owners, at most `limit` of them.
    pub fn get_company_list(&self, offset: u64, limit: u64) -> (found: Option<Vec<CompanyProfile>>)
        requires
            self.wf(),
        ensures
            page_views(found) == page(
                window(self@.company_listing(), offset as nat, limit as nat),
            ),
    {
        let ghost listing = self@.company_listing();
        let n: usize = self.companies.len();
        let mut data: Vec<CompanyProfile> = Vec::new();
        proof {
            self.lemma_company_listing();
        }
        if offset < n as u64 {
            let start: usize = offset as usize;
            let end: usize = if limit < (n - start) as u64 {
                start + limit as usize
            } else {
                n
            };
            let mut i: usize = start;
            assert(views(data@) =~= listing.subrange(offset as int, i as int));
            while i < end
                invariant
                    self.wf(),
                    listing == self@.company_listing(),
                    listing == views(self.companies.values_in_order()),
                    n == self.companies.listing().len(),
                    n == listing.len(),
                    start == offset,
                    start <= i <= end <= n,
                    views(data@) == listing.subrange(offset as int, i as int),
                decreases end - i,
            {
                let ghost before = views(data@);
                data.push(self.companies.value_at(i).clone());
                assert(views(data@) =~= before.push(listing[i as int]));
                i = i + 1;
                assert(views(data@) =~= listing.subrange(offset as int, i as int));
            }
            assert(views(data@) =~= window(listing, offset as nat, limit as nat));
        }
        into_page(data)
    }

    /// The applicant profiles, as they are handed out, at the positions
    /// `offset`, `offset + 1`, ... of the profiles in the order of their
    /// owners, at most `limit` of them.
    pub fn get_applicant_list(&self, offset: u64, limit: u64) -> (found: Option<
        Vec<ApplicantProfileResponse>,
    >)
        requires
            self.wf(),
        ensures
            page_views(found) == page(
                window(self@.applicant_listing(), offset as nat, limit as nat),
            ),
    {
        let ghost listing = self@.applicant_listing();
        let n: usize = self.applicants.len();
        let mut data: Vec<ApplicantProfileResponse> = Vec::new();
        proof {
            self.lemma_applicant_listing();
        }
        if offset < n as u64 {
            let start: usize = offset as usize;
            let end: usize = if limit < (n - start) as u64 {
                start + limit as usize
            } else {
                n
            };
            let mut i: usize = start;
            assert(views(data@) =~= listing.subrange(offset as int, i as int));
            while i < end
                invariant
                    self.wf(),
                    listing == self@.applicant_listing(),
                    forall|k: int|
                        0 <= k < n ==> #[trigger] listing[k]
                            == self.applicants.values_in_order()[k]@.response(),
                    n == self.applicants.listing().len(),
                    n == listing.len(),
                    start == offset,
                    start <= i <= end <= n,
                    views(data@) == listing.subrange(offset as int, i as int),
                decreases end - i,
            {
                let ghost before = views(data@);
                data.push(self.applicants.value_at(i).response());
                assert(views(data@) =~= before.push(listing[i as int]));
                i = i + 1;
                assert(views(data@) =~= listing.subrange(offset as int, i as int));
            }
            assert(views(data@) =~= window(listing, offset as nat, limit as nat));
        }
        into_page(data)
    }

    /// The first `limit` applications of applicant `caller` among those at
    /// the positions `offset`, `offset + 1`, ... of the applications in
    /// ascending order of their ids.
    pub fn applicant_application_list(&self, caller: &Identity, offset: u64, limit: u64) -> (found:
        Option<Vec<Application>>)
        requires
            self.wf(),
        ensures
            page_views(found) == page(
                scan(
                    self@.application_listing(),
                    offset as nat,
                    limit as nat,
                    BackendView::filed_by(caller@),
                ),
            ),
    {
        let ghost listing = self@.application_listing();
        let ghost wanted = BackendView::filed_by(caller@);
        let n: u64 = self.application_ids.last();
        let mut data: Vec<Application> = Vec::new();
        if offset < n {
            let mut i: u64 = offset;
            let mut count: u64 = 0;
            proof {
                reveal(Seq::filter);
                assert(listing.subrange(offset as int, i as int).filter(wanted) =~= Seq::empty());
                assert(views(data@) =~= Seq::empty());
            }
            while i < n && count < limit
                invariant
                    self.wf(),
                    listing == self@.application_listing(),
                    wanted == BackendView::filed_by(caller@),
                    n == self@.last_application,
                    offset <= i <= n,
                    count == data@.len(),
                    count <= limit,
                    views(data@) == listing.subrange(offset as int, i as int).filter(wanted),
                decreases n - i,
            {
                let ghost before = views(data@);
                proof {
                    lemma_scan_step(listing, offset as int, i as int, wanted);
                    assert(self@.applications.contains_key((i + 1) as u64));
                }
                match self.applications.get(&(i + 1)) {
                    Some(application) => {
                        assert(application@ == listing[i as int]);
                        if application.applicant_id.same(caller) {
                            data.push(application.clone());
                            count = count + 1;
                            assert(views(data@) =~= before.push(listing[i as int]));
                        }
                    },
                    None => {},
                }
                i = i + 1;
                assert(views(data@) =~= listing.subrange(offset as int, i as int).filter(wanted));
            }
            proof {
                lemma_scan_done(listing, offset as nat, limit as nat, i as int, wanted);
            }
        }
        into_page(data)
    }

    /// The first `limit` applications for jobs of company `caller` among
    /// those at the positions `offset`, `offset + 1`, ... of the applications
    /// in ascending order of their ids.
    pub fn company_application_list(&self, caller: &Identity, offset: u64, limit: u64) -> (found:
        Option<Vec<Application>>)
        requires
            self.wf(),
        ensures
            page_views(found) == page(
                scan(
                    self@.application_listing(),
                    offset as nat,
                    limit as nat,
                    self@.filed_with(caller@),
                ),
            ),
    {
        let ghost listing = self@.application_listing();
        let ghost wanted = self@.filed_with(caller@);
        let n: u64 = self.application_ids.last();
        let mut data: Vec<Application> = Vec::new();
        let owned: Option<&Vec<u64>> = self.jobs_by_company.get(caller);
        if offset < n {
            let mut i: u64 = offset;
            let mut count: u64 = 0;
            proof {
                reveal(Seq::filter);
                assert(listing.subrange(offset as int, i as int).filter(wanted) =~= Seq::empty());
                assert(views(data@) =~= Seq::empty());
            }
            while i < n && count < limit
                invariant
                    self.wf(),
                    listing == self@.application_listing(),
                    wanted == self@.filed_with(caller@),
                    n == self@.last_application,
                    match owned {
                        Some(ids) => self.jobs_by_company@.contains_key(caller@) && *ids
                            == self.jobs_by_company@[caller@],
                        None => !self.jobs_by_company@.contains_key(caller@),
                    },
                    offset <= i <= n,
                    count == data@.len(),
                    count <= limit,
                    views(data@) == listing.subrange(offset as int, i as int).filter(wanted),
                decreases n - i,
            {
                let ghost before = views(data@);
                proof {
                    lemma_scan_step(listing, offset as int, i as int, wanted);
                    assert(self@.applications.contains_key((i + 1) as u64));
                }
                match self.applications.get(&(i + 1)) {
                    Some(application) => {
                        assert(application@ == listing[i as int]);
                        let with_caller: bool = match owned {
                            Some(ids) => holds_id(ids, application.job_id),
                            None => false,
                        };
                        proof {
                            let who = caller@;
                            let job = application.job_id;
                            assert(self@.jobs_by_company.contains_key(who)
                                == self.jobs_by_company@.contains_key(who));
                            if self@.jobs_by_company.contains_key(who) {
                                assert(self@.jobs_by_company[who].contains(job) == with_caller);
                            }
                            assert(with_caller == self@.owns_job(who, job));
                        }
                        if with_caller {
                            data.push(application.clone());
                            count = count + 1;
                            assert(views(data@) =~= before.push(listing[i as int]));
                        }
                    },
                    None => {},
                }
                i = i + 1;
                assert(views(data@) =~= listing.subrange(offset as int, i as int).filter(wanted));
            }
            proof {
                lemma_scan_done(listing, offset as nat, limit as nat, i as int, wanted);
            }
        }
        into_page(data)
    }
}

} // verus!
