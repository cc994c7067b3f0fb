//! Laws of the backend.
//!
//! Each law is a statement about the model of the operations, proved once
//! for every state and every argument.

use crate::denial::{Denial, Role};
use crate::history::Request;
use crate::identity::{identity_order, lemma_identity_order};
use crate::model::{id_order, BackendView};
use crate::order::{ascending_keys, lemma_ascending_exists, lemma_ascending_keys, lists_keys};
use crate::pagination::{page, scan, window};
use crate::records::{
    skill_id_order, skills_in_order, ApplicantParamsView, ApplicationStatus, CompanyParamsView,
    JobParamsView, JobStatus, SkillView,
};
use crate::skills::{keyed_by_id, RegistryView};
use vstd::prelude::*;

verus! {

/// What a company submits to create one job.
pub struct JobDraft {
    pub params: JobParamsView,
    pub skills: Seq<SkillView>,
}

impl BackendView {
    /// The state after company `who` asked for the jobs of `drafts`, one
    /// after the other, and what each request returned.
    pub open spec fn post_jobs(self, who: Seq<u8>, drafts: Seq<JobDraft>) -> (
        BackendView,
        Seq<Result<u64, Denial>>,
    )
        decreases drafts.len(),
    {
        if drafts.len() == 0 {
            (self, Seq::empty())
        } else {
            let (state, ids) = self.post_jobs(who, drafts.drop_last());
            let draft = drafts.last();
            (state.post_job(who, draft.params, draft.skills), ids.push(state.can_post_job(who)))
        }
    }
}

/// Job ids are handed out in ascending order without gaps: the jobs that a
/// company creates one after the other get the ids that follow the id of the
/// job created last, each the successor of the one before. Once `u64::MAX`
/// has been handed out, no further job is created.
pub proof fn law_job_ids_are_consecutive(state: BackendView, who: Seq<u8>, drafts: Seq<JobDraft>)
    requires
        state.wf(),
        state.companies.contains_key(who),
    ensures
        state.post_jobs(who, drafts).0.wf(),
        state.post_jobs(who, drafts).0.companies.contains_key(who),
        state.post_jobs(who, drafts).1.len() == drafts.len(),
        state.post_jobs(who, drafts).0.last_job == if state.last_job + drafts.len() <= u64::MAX {
            state.last_job + drafts.len()
        } else {
            u64::MAX as int
        },
        forall|i: int|
            0 <= i < drafts.len() ==> #[trigger] state.post_jobs(who, drafts).1[i] == if state.last_job
                + i < u64::MAX {
                Ok::<u64, Denial>((state.last_job + i + 1) as u64)
            } else {
                Err::<u64, Denial>(Denial::IdsExhausted)
            },
    decreases drafts.len(),
{
    if drafts.len() > 0 {
        law_job_ids_are_consecutive(state, who, drafts.drop_last());
        let (middle, ids) = state.post_jobs(who, drafts.drop_last());
        let draft = drafts.last();
        middle.lemma_post_job_wf(who, draft.params, draft.skills);
    }
}

/// An identity that has a company profile is refused an applicant profile,
/// and an identity that has an applicant profile is refused a company
/// profile, with a role conflict in either case.
pub proof fn law_roles_exclude_each_other(state: BackendView, who: Seq<u8>)
    requires
        state.wf(),
    ensures
        state.companies.contains_key(who) ==> state.is_valid_create_user(who) == Err::<(), Denial>(
            Denial::RoleConflict(Role::Company),
        ),
        state.applicants.contains_key(who) ==> state.is_valid_create_user(who) == Err::<
            (),
            Denial,
        >(Denial::RoleConflict(Role::Applicant)),
        !(state.companies.contains_key(who) && state.applicants.contains_key(who)),
{
}

/// Once an identity has created a company profile, it is refused an
/// applicant profile after every run of requests that follows, and the
/// refused request changes nothing.
pub proof fn law_company_stays_company(
    state: BackendView,
    who: Seq<u8>,
    now: u64,
    params: CompanyParamsView,
    requests: Seq<Request>,
    later: u64,
    applicant: ApplicantParamsView,
    skills: Seq<SkillView>,
)
    requires
        state.wf(),
        state.is_valid_create_user(who) is Ok,
    ensures
        ({
            let after = state.register_company(who, now, params).run(requests);
            &&& after.is_valid_create_user(who) == Err::<(), Denial>(
                Denial::RoleConflict(Role::Company),
            )
            &&& after.register_applicant(who, later, applicant, skills) == after
            &&& after.companies[who] == params.profile(who, now)
        }),
{
    let created = state.register_company(who, now, params);
    state.lemma_register_company_wf(who, now, params);
    created.lemma_run(requests);
    assert(created.companies.contains_key(who));
}

/// Once an identity has created an applicant profile, it is refused a
/// company profile after every run of requests that follows, and the refused
/// request changes nothing.
pub proof fn law_applicant_stays_applicant(
    state: BackendView,
    who: Seq<u8>,
    now: u64,
    params: ApplicantParamsView,
    skills: Seq<SkillView>,
    requests: Seq<Request>,
    later: u64,
    company: CompanyParamsView,
)
    requires
        state.wf(),
        state.is_valid_create_user(who) is Ok,
    ensures
        ({
            let after = state.register_applicant(who, now, params, skills).run(requests);
            &&& after.is_valid_create_user(who) == Err::<(), Denial>(
                Denial::RoleConflict(Role::Applicant),
            )
            &&& after.register_company(who, later, company) == after
        }),
{
    let created = state.register_applicant(who, now, params, skills);
    state.lemma_register_applicant_wf(who, now, params, skills);
    created.lemma_run(requests);
    assert(created.applicants.contains_key(who));
    let after = created.run(requests);
    assert(after.applicants.contains_key(who));
}

/// A company that does not own a job cannot cancel it: the request is
/// refused as unauthorized and the state, the status of the job included,
/// stays as it is.
pub proof fn law_cancel_needs_the_owner(state: BackendView, who: Seq<u8>, id: u64)
    requires
        state.jobs.contains_key(id),
        state.jobs[id].company_id != who,
    ensures
        state.can_cancel_job(who, id) == Err::<JobStatus, Denial>(Denial::Unauthorized),
        state.cancel_job(who, id) == state,
        state.cancel_job(who, id).jobs[id].status == state.jobs[id].status,
{
}

/// A cancellation goes through exactly when the caller owns the job and the
/// job is open; the job is then canceled and nothing else changes.
pub proof fn law_cancel(state: BackendView, who: Seq<u8>, id: u64)
    ensures
        state.can_cancel_job(who, id) is Ok <==> state.owns_job(who, id) && state.jobs[id].status
            == JobStatus::Open,
        state.can_cancel_job(who, id) is Ok ==> state.cancel_job(who, id).jobs
            == state.jobs.insert(id, state.jobs[id].with_status(JobStatus::Canceled)),
        !(state.can_cancel_job(who, id) is Ok) ==> state.cancel_job(who, id) == state,
{
}

/// An offer made on an application in the status `Applied` puts it into the
/// status `Offer`, and a second decision on the same application, whichever
/// way, is refused and changes nothing.
pub proof fn law_offer_is_made_once(
    state: BackendView,
    who: Seq<u8>,
    application_id: u64,
    job_id: u64,
    again: bool,
)
    requires
        state.can_make_offer(who, application_id, job_id, true) is Ok,
    ensures
        ({
            let offered = state.make_offer(who, application_id, job_id, true);
            &&& state.applications[application_id].status == ApplicationStatus::Applied
            &&& offered.applications[application_id].status == ApplicationStatus::Offer
            &&& offered.can_make_offer(who, application_id, job_id, again) == Err::<
                ApplicationStatus,
                Denial,
            >(Denial::InvalidStatus)
            &&& offered.make_offer(who, application_id, job_id, again) == offered
        }),
{
}

/// A decision goes through exactly when the caller owns the job, the
/// application is for that job, and the application is in the status
/// `Applied`. It then gets the status `Offer` or `Rejected`; otherwise
/// nothing changes.
pub proof fn law_make_offer(
    state: BackendView,
    who: Seq<u8>,
    application_id: u64,
    job_id: u64,
    accept: bool,
)
    ensures
        state.can_make_offer(who, application_id, job_id, accept) is Ok <==> {
            &&& state.owns_job(who, job_id)
            &&& state.applications.contains_key(application_id)
            &&& state.applications[application_id].job_id == job_id
            &&& state.applications[application_id].status == ApplicationStatus::Applied
        },
        state.can_make_offer(who, application_id, job_id, accept) is Ok ==> state.make_offer(
            who,
            application_id,
            job_id,
            accept,
        ).applications[application_id].status == if accept {
            ApplicationStatus::Offer
        } else {
            ApplicationStatus::Rejected
        },
        !(state.can_make_offer(who, application_id, job_id, accept) is Ok) ==> state.make_offer(
            who,
            application_id,
            job_id,
            accept,
        ) == state,
{
}

/// An answer to an offer goes through exactly when the caller is the
/// applicant who owns the application and the application is in the status
/// `Offer`. It then gets the status `Accepted` or `Rejected`; otherwise
/// nothing changes, so that an offer answered by anyone else stays an offer.
pub proof fn law_accept_offer(state: BackendView, who: Seq<u8>, application_id: u64, accept: bool)
    ensures
        state.can_accept_offer(who, application_id, accept) is Ok <==> {
            &&& state.applications.contains_key(application_id)
            &&& state.applications[application_id].applicant_id == who
            &&& state.applications[application_id].status == ApplicationStatus::Offer
        },
        state.can_accept_offer(who, application_id, accept) is Ok ==> state.accept_offer(
            who,
            application_id,
            accept,
        ).applications[application_id].status == if accept {
            ApplicationStatus::Accepted
        } else {
            ApplicationStatus::Rejected
        },
        !(state.can_accept_offer(who, application_id, accept) is Ok) ==> state.accept_offer(
            who,
            application_id,
            accept,
        ) == state,
        state.applications.contains_key(application_id)
            && state.applications[application_id].applicant_id != who ==> state.accept_offer(
            who,
            application_id,
            accept,
        ).applications[application_id].status == state.applications[application_id].status,
{
}

/// A withdrawal goes through exactly when the caller is the applicant who
/// owns the application and the application was neither rejected nor
/// withdrawn. It is then withdrawn; otherwise nothing changes.
pub proof fn law_withdraw(state: BackendView, who: Seq<u8>, id: u64)
    ensures
        state.can_withdraw_application(who, id) is Ok <==> {
            &&& state.applications.contains_key(id)
            &&& state.applications[id].applicant_id == who
            &&& state.applications[id].status != ApplicationStatus::Rejected
            &&& state.applications[id].status != ApplicationStatus::Withdraw
        },
        state.can_withdraw_application(who, id) is Ok ==> state.withdraw_application(
            who,
            id,
        ).applications[id].status == ApplicationStatus::Withdraw,
        !(state.can_withdraw_application(who, id) is Ok) ==> state.withdraw_application(who, id)
            == state,
{
}

/// Whether no job of `state` is closed.
pub open spec fn nothing_closed(state: BackendView) -> bool {
    forall|id: u64| #[trigger]
        state.jobs.contains_key(id) ==> state.jobs[id].status != JobStatus::Closed
}

/// No operation closes a job: in every state that a run reaches from the
/// empty state, each job is open or canceled.
pub proof fn law_no_job_is_closed(requests: Seq<Request>)
    ensures
        nothing_closed(BackendView::empty().run(requests)),
    decreases requests.len(),
{
    if requests.len() > 0 {
        law_no_job_is_closed(requests.drop_last());
    }
}

/// A rejected or withdrawn application stays as it is, and a canceled job
/// stays canceled, whatever is requested afterwards.
pub proof fn law_final_statuses_stay(state: BackendView, requests: Seq<Request>)
    requires
        state.wf(),
    ensures
        forall|id: u64| #[trigger]
            state.applications.contains_key(id) && (state.applications[id].status
                == ApplicationStatus::Rejected || state.applications[id].status
                == ApplicationStatus::Withdraw) ==> state.run(requests).applications[id]
                == state.applications[id],
        forall|id: u64| #[trigger]
            state.jobs.contains_key(id) && state.jobs[id].status == JobStatus::Canceled
                ==> state.run(requests).jobs[id] == state.jobs[id],
    decreases requests.len(),
{
    if requests.len() > 0 {
        law_final_statuses_stay(state, requests.drop_last());
        state.lemma_run(requests.drop_last());
        let middle = state.run(requests.drop_last());
        assert forall|id: u64| #[trigger]
            state.applications.contains_key(id) && (state.applications[id].status
                == ApplicationStatus::Rejected || state.applications[id].status
                == ApplicationStatus::Withdraw) implies state.run(requests).applications[id]
            == state.applications[id] by {
            assert(middle.applications.contains_key(id));
        }
        assert forall|id: u64| #[trigger]
            state.jobs.contains_key(id) && state.jobs[id].status
                == JobStatus::Canceled implies state.run(requests).jobs[id] == state.jobs[id] by {
            assert(middle.jobs.contains_key(id));
        }
    }
}

/// The request for the skill named `name`, without an id.
pub open spec fn by_name(name: Seq<char>) -> Seq<SkillView> {
    seq![SkillView { id: None, name }]
}

/// A name that is submitted without an id is registered anew each time: two
/// requests for the same name, one after the other, register two skills of
/// that name under two ids, the second the successor of the first.
pub proof fn law_names_are_registered_anew(registry: RegistryView, name: Seq<char>)
    requires
        registry.wf(),
        registry.next + 1 < u16::MAX,
    ensures
        ({
            let (first, one) = registry.resolve(by_name(name));
            let (second, other) = first.resolve(by_name(name));
            let a = registry.next;
            let b = (registry.next + 1) as u16;
            &&& first.next == b
            &&& first.skills == registry.skills.insert(a, SkillView { id: Some(a), name })
            &&& one == Map::<u16, SkillView>::empty().insert(a, SkillView { id: Some(a), name })
            &&& other == Map::<u16, SkillView>::empty().insert(b, SkillView { id: Some(b), name })
            &&& a != b
            &&& second.next == registry.next + 2
            &&& second.skills == registry.skills.insert(a, SkillView { id: Some(a), name }).insert(
                b,
                SkillView { id: Some(b), name },
            )
        }),
{
    let requests = by_name(name);
    assert(requests.drop_last() =~= Seq::<SkillView>::empty());
    assert(requests.last() == SkillView { id: None, name });
    reveal_with_fuel(RegistryView::resolve, 2);
}

/// The requests of `requests` that come without an id, in their order.
pub open spec fn nameless(requests: Seq<SkillView>) -> Seq<SkillView> {
    requests.filter(|request: SkillView| request.id is None)
}

/// The names that come without an id are registered in their order under
/// consecutive ids, from the next id of the registry upwards, for as long as
/// ids are left; what was registered before stays as it is.
pub proof fn law_names_get_consecutive_ids(registry: RegistryView, requests: Seq<SkillView>)
    requires
        registry.wf(),
    ensures
        ({
            let after = registry.resolve(requests).0;
            let names = nameless(requests);
            &&& after.wf()
            &&& after.next == if registry.next + names.len() <= u16::MAX {
                registry.next + names.len()
            } else {
                u16::MAX as int
            }
            &&& forall|id: u16|
                id < registry.next ==> #[trigger] after.skills[id] == registry.skills[id]
            &&& forall|i: int|
                0 <= i < names.len() && registry.next + i < u16::MAX ==> #[trigger] after.skills[(
                registry.next + i) as u16] == (SkillView {
                    id: Some((registry.next + i) as u16),
                    name: names[i].name,
                })
        }),
    decreases requests.len(),
{
    reveal(Seq::filter);
    if requests.len() > 0 {
        law_names_get_consecutive_ids(registry, requests.drop_last());
        registry.lemma_resolve(requests.drop_last());
        registry.lemma_resolve(requests);
        let before = registry.resolve(requests.drop_last()).0;
        let after = registry.resolve(requests).0;
        let earlier = nameless(requests.drop_last());
        let names = nameless(requests);
        assert forall|i: int|
            0 <= i < names.len() && registry.next + i < u16::MAX implies #[trigger] after.skills[(
        registry.next + i) as u16] == (SkillView {
            id: Some((registry.next + i) as u16),
            name: names[i].name,
        }) by {
            if i < earlier.len() {
                assert(names[i] == earlier[i]);
                assert(before.skills[(registry.next + i) as u16] == (SkillView {
                    id: Some((registry.next + i) as u16),
                    name: earlier[i].name,
                }));
            }
        }
    }
}

/// Once the skill ids are used up, a name without an id is dropped: nothing
/// is registered and nothing is overwritten.
pub proof fn law_registry_stops_when_exhausted(registry: RegistryView, name: Seq<char>)
    requires
        registry.exhausted(),
    ensures
        registry.resolve(by_name(name)) == (registry, Map::<u16, SkillView>::empty()),
{
    let requests = by_name(name);
    assert(requests.drop_last() =~= Seq::<SkillView>::empty());
    assert(requests.last() == SkillView { id: None, name });
    reveal_with_fuel(RegistryView::resolve, 2);
}

/// A skill that comes with an id goes into the resolved set as it is, and
/// the registry is not touched.
pub proof fn law_known_skill_is_copied(registry: RegistryView, id: u16, name: Seq<char>)
    ensures
        registry.resolve(seq![SkillView { id: Some(id), name }]) == (
            registry,
            Map::<u16, SkillView>::empty().insert(id, SkillView { id: Some(id), name }),
        ),
{
    let requests = seq![SkillView { id: Some(id), name }];
    assert(requests.drop_last() =~= Seq::<SkillView>::empty());
    assert(requests.last() == SkillView { id: Some(id), name });
    reveal_with_fuel(RegistryView::resolve, 2);
}

/// A window holds the items from `offset` on, in their order, and is as long
/// as the limit and the listing allow.
pub proof fn law_window<T>(items: Seq<T>, offset: nat, limit: nat)
    ensures
        window(items, offset, limit).len() == if offset >= items.len() {
            0
        } else if offset + limit < items.len() {
            limit as int
        } else {
            items.len() - offset
        },
        forall|i: int|
            0 <= i < window(items, offset, limit).len() ==> #[trigger] window(
                items,
                offset,
                limit,
            )[i] == items[offset + i],
{
}

/// Where the limit reaches beyond the end of the listing, the page is the
/// rest of the listing from `offset` on.
pub proof fn law_window_to_the_end<T>(items: Seq<T>, offset: nat, limit: nat)
    requires
        offset < items.len(),
        offset + limit >= items.len(),
    ensures
        page(window(items, offset, limit)) == Some(items.skip(offset as int)),
{
}

/// There is no page exactly when the limit is zero or the offset is not
/// below the length of the listing; a page is never empty.
pub proof fn law_no_page<T>(items: Seq<T>, offset: nat, limit: nat)
    ensures
        page(window(items, offset, limit)) is None <==> limit == 0 || offset >= items.len(),
        page(window(items, offset, limit)) matches Some(found) ==> found.len() > 0,
{
}

/// A scan finds wanted items only, at most `limit` of them, and no page
/// where it finds none.
pub proof fn law_scan<T>(items: Seq<T>, offset: nat, limit: nat, wanted: spec_fn(T) -> bool)
    ensures
        scan(items, offset, limit, wanted).len() <= limit,
        forall|i: int|
            0 <= i < scan(items, offset, limit, wanted).len() ==> wanted(
                #[trigger] scan(items, offset, limit, wanted)[i],
            ),
        page(scan(items, offset, limit, wanted)) matches Some(found) ==> found.len() > 0,
{
    if offset < items.len() {
        let found = items.skip(offset as int).filter(wanted);
        assert forall|i: int| 0 <= i < found.len() implies wanted(#[trigger] found[i]) by {
            items.skip(offset as int).lemma_filter_pred(wanted, i);
        }
    }
}

/// The jobs are listed in ascending order of their ids, each once.
pub proof fn law_jobs_are_listed_by_id(state: BackendView)
    requires
        state.wf(),
    ensures
        ascending_keys(state.jobs.dom(), id_order()) == Seq::new(
            state.last_job as nat,
            |i: int| (i + 1) as u64,
        ),
        state.job_listing() == ascending_keys(state.jobs.dom(), id_order()).map_values(
            |id: u64| state.jobs[id].response(),
        ),
        forall|i: int|
            0 <= i < state.job_listing().len() ==> (#[trigger] state.job_listing()[i]).id == i + 1,
{
    let ids = Seq::new(state.last_job as nat, |i: int| (i + 1) as u64);
    assert forall|id: u64| state.jobs.dom().contains(id) <==> ids.contains(id) by {
        if state.jobs.dom().contains(id) {
            assert(state.jobs.contains_key(id));
            assert(ids[id - 1] == id);
        }
        if ids.contains(id) {
            let i = choose|i: int| 0 <= i < ids.len() && ids[i] == id;
            assert(state.jobs.contains_key(id));
        }
    }
    assert(lists_keys(ids, state.jobs.dom(), id_order()));
    lemma_ascending_keys(ids, state.jobs.dom(), id_order());
    assert(state.job_listing() =~= ids.map_values(|id: u64| state.jobs[id].response()));
    assert forall|i: int| 0 <= i < state.job_listing().len() implies (
    #[trigger] state.job_listing()[i]).id == i + 1 by {
        assert(state.jobs.contains_key((i + 1) as u64));
    }
}

/// The applications are listed in ascending order of their ids, each once.
pub proof fn law_applications_are_listed_by_id(state: BackendView)
    requires
        state.wf(),
    ensures
        ascending_keys(state.applications.dom(), id_order()) == Seq::new(
            state.last_application as nat,
            |i: int| (i + 1) as u64,
        ),
        state.application_listing() == ascending_keys(
            state.applications.dom(),
            id_order(),
        ).map_values(|id: u64| state.applications[id]),
        forall|i: int|
            0 <= i < state.application_listing().len() ==> (
            #[trigger] state.application_listing()[i]).id == i + 1,
{
    let ids = Seq::new(state.last_application as nat, |i: int| (i + 1) as u64);
    assert forall|id: u64| state.applications.dom().contains(id) <==> ids.contains(id) by {
        if state.applications.dom().contains(id) {
            assert(state.applications.contains_key(id));
            assert(ids[id - 1] == id);
        }
        if ids.contains(id) {
            let i = choose|i: int| 0 <= i < ids.len() && ids[i] == id;
            assert(state.applications.contains_key(id));
        }
    }
    assert(lists_keys(ids, state.applications.dom(), id_order()));
    lemma_ascending_keys(ids, state.applications.dom(), id_order());
    assert(state.application_listing() =~= ids.map_values(|id: u64| state.applications[id]));
    assert forall|i: int| 0 <= i < state.application_listing().len() implies (
    #[trigger] state.application_listing()[i]).id == i + 1 by {
        assert(state.applications.contains_key((i + 1) as u64));
    }
}

/// The registered skills are listed in ascending order of their ids, each
/// once.
pub proof fn law_registry_is_listed_by_id(registry: RegistryView)
    requires
        registry.wf(),
    ensures
        ascending_keys(registry.skills.dom(), skill_id_order()) == Seq::new(
            registry.next as nat,
            |i: int| i as u16,
        ),
        registry.listing() == ascending_keys(registry.skills.dom(), skill_id_order()).map_values(
            |id: u16| registry.skills[id],
        ),
        forall|i: int|
            0 <= i < registry.listing().len() ==> (#[trigger] registry.listing()[i]).id == Some(
                i as u16,
            ),
{
    let ids = Seq::new(registry.next as nat, |i: int| i as u16);
    assert forall|id: u16| registry.skills.dom().contains(id) <==> ids.contains(id) by {
        if registry.skills.dom().contains(id) {
            assert(registry.skills.contains_key(id));
            assert(ids[id as int] == id);
        }
        if ids.contains(id) {
            let i = choose|i: int| 0 <= i < ids.len() && ids[i] == id;
            assert(registry.skills.contains_key(id));
        }
    }
    assert(lists_keys(ids, registry.skills.dom(), skill_id_order()));
    lemma_ascending_keys(ids, registry.skills.dom(), skill_id_order());
    assert(registry.listing() =~= ids.map_values(|id: u16| registry.skills[id]));
}

/// The company profiles are listed in the order of their owners, each once.
pub proof fn law_companies_are_listed_in_order(state: BackendView)
    requires
        state.wf(),
    ensures
        ({
            let owners = ascending_keys(state.companies.dom(), identity_order());
            &&& lists_keys(owners, state.companies.dom(), identity_order())
            &&& owners.no_duplicates()
            &&& state.company_listing().len() == state.companies.dom().len()
            &&& forall|i: int|
                0 <= i < owners.len() ==> #[trigger] state.company_listing()[i]
                    == state.companies[owners[i]] && state.company_listing()[i].id == owners[i]
        }),
{
    lemma_identity_order();
    lemma_ascending_exists(state.companies.dom(), identity_order());
    let owners = ascending_keys(state.companies.dom(), identity_order());
    assert forall|i: int| 0 <= i < owners.len() implies #[trigger] state.company_listing()[i]
        == state.companies[owners[i]] && state.company_listing()[i].id == owners[i] by {
        assert(owners.contains(owners[i]));
        assert(state.companies.contains_key(owners[i]));
    }
}

/// The applicant profiles are listed in the order of their owners, each
/// once.
pub proof fn law_applicants_are_listed_in_order(state: BackendView)
    requires
        state.wf(),
    ensures
        ({
            let owners = ascending_keys(state.applicants.dom(), identity_order());
            &&& lists_keys(owners, state.applicants.dom(), identity_order())
            &&& owners.no_duplicates()
            &&& state.applicant_listing().len() == state.applicants.dom().len()
            &&& forall|i: int|
                0 <= i < owners.len() ==> #[trigger] state.applicant_listing()[i]
                    == state.applicants[owners[i]].response() && state.applicant_listing()[i].id
                    == owners[i]
        }),
{
    lemma_identity_order();
    lemma_ascending_exists(state.applicants.dom(), identity_order());
    let owners = ascending_keys(state.applicants.dom(), identity_order());
    assert forall|i: int| 0 <= i < owners.len() implies #[trigger] state.applicant_listing()[i]
        == state.applicants[owners[i]].response() && state.applicant_listing()[i].id
        == owners[i] by {
        assert(owners.contains(owners[i]));
        assert(state.applicants.contains_key(owners[i]));
    }
}

/// A skill set is handed out in ascending order of its ids, and no id occurs
/// twice in it.
pub proof fn law_skill_sets_are_listed_by_id(skills: Map<u16, SkillView>)
    requires
        keyed_by_id(skills),
    ensures
        ({
            let ids = ascending_keys(skills.dom(), skill_id_order());
            let listed = skills_in_order(skills);
            &&& lists_keys(ids, skills.dom(), skill_id_order())
            &&& listed.len() == skills.dom().len()
            &&& forall|i: int| 0 <= i < listed.len() ==> (#[trigger] listed[i]).id == Some(ids[i])
            &&& forall|i: int, j: int|
                0 <= i < j < listed.len() ==> (#[trigger] listed[i]).id->0 < (
                #[trigger] listed[j]).id->0
        }),
{
    lemma_ascending_exists(skills.dom(), skill_id_order());
    let ids = ascending_keys(skills.dom(), skill_id_order());
    let listed = skills_in_order(skills);
    assert forall|i: int| 0 <= i < listed.len() implies (#[trigger] listed[i]).id == Some(
        ids[i],
    ) by {
        assert(ids.contains(ids[i]));
        assert(skills.contains_key(ids[i]));
    }
    assert forall|i: int, j: int| 0 <= i < j < listed.len() implies (#[trigger] listed[i]).id->0
        < (#[trigger] listed[j]).id->0 by {
        assert(skill_id_order()(ids[i], ids[j]));
    }
}

/// Where the limit reaches beyond the jobs that are left, the page of jobs
/// holds the jobs that are left, in ascending order of their ids.
pub proof fn law_job_list_returns_the_remainder(state: BackendView, offset: nat, limit: nat)
    requires
        offset < state.last_job,
        offset + limit >= state.last_job,
    ensures
        page(window(state.job_listing(), offset, limit)) == Some(
            Seq::new(
                (state.last_job - offset) as nat,
                |i: int| state.jobs[(offset + i + 1) as u64].response(),
            ),
        ),
{
    let rest = Seq::new(
        (state.last_job - offset) as nat,
        |i: int| state.jobs[(offset + i + 1) as u64].response(),
    );
    assert(window(state.job_listing(), offset, limit) =~= rest);
}

} // verus!
