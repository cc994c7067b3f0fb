//! The records the stores hold, and what each of them stands for.
//!
//! Every record has a view: the same record with its texts as sequences of
//! characters, its identities as sequences of bytes and its skill set as a
//! map. Contracts speak of the views.

use crate::btree_keys::lemma_skill_ids_ascend;
use crate::identity::Identity;
use crate::order::{ascending_keys, is_ascending, lemma_ascending_keys, strict_order};
use std::collections::BTreeMap;
use vstd::prelude::*;
use vstd::std_specs::btree::increasing_seq;
use vstd::std_specs::iter::IteratorSpec;

verus! {

/// Where a job stands.
#[derive(Clone, Copy, Debug, PartialEq, Eq, Structural)]
pub enum JobStatus {
    Open,
    Closed,
    Canceled,
}

/// Where an application stands.
#[derive(Clone, Copy, Debug, PartialEq, Eq, Structural)]
pub enum ApplicationStatus {
    Applied,
    Withdraw,
    Offer,
    Accepted,
    Rejected,
}

impl Default for JobStatus {
    fn default() -> (status: Self)
        ensures
            status == JobStatus::Open,
    {
        JobStatus::Open
    }
}

impl Default for ApplicationStatus {
    fn default() -> (status: Self)
        ensures
            status == ApplicationStatus::Applied,
    {
        ApplicationStatus::Applied
    }
}

/// A skill, or a request for one: with an id it names a known skill, without
/// one it asks for the name to be registered.
#[derive(Debug, PartialEq, Eq)]
pub struct Skill {
    pub id: Option<u16>,
    pub name: String,
}

/// What a [`Skill`] stands for.
pub struct SkillView {
    pub id: Option<u16>,
    pub name: Seq<char>,
}

impl View for Skill {
    type V = SkillView;

    open spec fn view(&self) -> SkillView {
        SkillView { id: self.id, name: self.name@ }
    }
}

impl Clone for Skill {
    fn clone(&self) -> (copy: Self)
        ensures
            copy@ == self@,
    {
        Skill { id: self.id, name: self.name.clone() }
    }
}

/// The views of a sequence of skills.
pub open spec fn skill_seq_view(skills: Seq<Skill>) -> Seq<SkillView> {
    skills.map_values(|s: Skill| s@)
}

/// The views of a skill set.
pub open spec fn skill_map_view(skills: Map<u16, Skill>) -> Map<u16, SkillView> {
    skills.map_values(|s: Skill| s@)
}

/// The order of skill ids.
pub open spec fn skill_id_order() -> spec_fn(u16, u16) -> bool {
    |a: u16, b: u16| a < b
}

/// The skills of a skill set in ascending order of their keys.
pub open spec fn skills_in_order(skills: Map<u16, SkillView>) -> Seq<SkillView> {
    ascending_keys(skills.dom(), skill_id_order()).map_values(|id: u16| skills[id])
}

/// The skills of a skill set in ascending order of their keys.
pub fn skills_by_id(skills: &BTreeMap<u16, Skill>) -> (listed: Vec<Skill>)
    ensures
        skill_seq_view(listed@) == skills_in_order(skill_map_view(skills@)),
{
    let ghost keys: Seq<&u16> = skills.keys().remaining();
    let ghost ids: Seq<u16> = Seq::empty();
    let mut listed: Vec<Skill> = Vec::new();
    for id in it: skills.keys()
        invariant
            it.seq() == keys,
            keys.len() == skills@.dom().len(),
            keys.unref().to_set() == skills@.dom(),
            increasing_seq(keys),
            listed@.len() == it.index(),
            ids.len() == it.index(),
            forall|i: int| 0 <= i < ids.len() ==> #[trigger] ids[i] == *keys[i],
            forall|i: int|
                0 <= i < ids.len() ==> skills@.contains_key(#[trigger] ids[i]) && listed@[i]@
                    == skills@[ids[i]]@,
    {
        assert(skills@.contains_key(*id));
        match skills.get(id) {
            Some(skill) => {
                listed.push(skill.clone());
            },
            None => {},
        }
        proof {
            ids = ids.push(*id);
        }
    }
    proof {
        let views = skill_map_view(skills@);
        lemma_skill_ids_ascend(keys);
        assert(ids =~= keys.unref());
        assert(is_ascending(ids, skill_id_order()));
        assert forall|id: u16| views.dom().contains(id) <==> ids.contains(id) by {
            assert(keys.unref().to_set().contains(id) <==> keys.unref().contains(id));
        }
        assert(strict_order(skill_id_order()));
        lemma_ascending_keys(ids, views.dom(), skill_id_order());
        assert(skill_seq_view(listed@) =~= ids.map_values(|id: u16| views[id]));
    }
    listed
}

/// What a company submits about itself.
#[derive(Debug, PartialEq, Eq)]
pub struct CompanyParams {
    pub name: String,
    pub logo: String,
    pub twitter: String,
    pub website: String,
}

/// What [`CompanyParams`] stand for.
pub struct CompanyParamsView {
    pub name: Seq<char>,
    pub logo: Seq<char>,
    pub twitter: Seq<char>,
    pub website: Seq<char>,
}

impl View for CompanyParams {
    type V = CompanyParamsView;

    open spec fn view(&self) -> CompanyParamsView {
        CompanyParamsView {
            name: self.name@,
            logo: self.logo@,
            twitter: self.twitter@,
            website: self.website@,
        }
    }
}

impl Clone for CompanyParams {
    fn clone(&self) -> (copy: Self)
        ensures
            copy@ == self@,
    {
        CompanyParams {
            name: self.name.clone(),
            logo: self.logo.clone(),
            twitter: self.twitter.clone(),
            website: self.website.clone(),
        }
    }
}

/// The profile of a company, owned by the identity that created it.
#[derive(Debug, PartialEq, Eq)]
pub struct CompanyProfile {
    pub id: Identity,
    pub name: String,
    pub logo: String,
    pub twitter: String,
    pub website: String,
    pub created_at: u64,
}

/// What a [`CompanyProfile`] stands for.
pub struct CompanyProfileView {
    pub id: Seq<u8>,
    pub name: Seq<char>,
    pub logo: Seq<char>,
    pub twitter: Seq<char>,
    pub website: Seq<char>,
    pub created_at: u64,
}

impl View for CompanyProfile {
    type V = CompanyProfileView;

    open spec fn view(&self) -> CompanyProfileView {
        CompanyProfileView {
            id: self.id@,
            name: self.name@,
            logo: self.logo@,
            twitter: self.twitter@,
            website: self.website@,
            created_at: self.created_at,
        }
    }
}

impl Clone for CompanyProfile {
    fn clone(&self) -> (copy: Self)
        ensures
            copy@ == self@,
    {
        CompanyProfile {
            id: self.id.clone(),
            name: self.name.clone(),
            logo: self.logo.clone(),
            twitter: self.twitter.clone(),
            website: self.website.clone(),
            created_at: self.created_at,
        }
    }
}

impl CompanyParamsView {
    /// The profile that `who` gets from these parameters at time `now`.
    pub open spec fn profile(self, who: Seq<u8>, now: u64) -> CompanyProfileView {
        CompanyProfileView {
            id: who,
            name: self.name,
            logo: self.logo,
            twitter: self.twitter,
            website: self.website,
            created_at: now,
        }
    }
}

/// What an applicant submits about themself.
#[derive(Debug, PartialEq, Eq)]
pub struct ApplicantParams {
    pub first_name: String,
    pub last_name: String,
    pub nickname: String,
    pub bio: String,
}

/// What [`ApplicantParams`] stand for.
pub struct ApplicantParamsView {
    pub first_name: Seq<char>,
    pub last_name: Seq<char>,
    pub nickname: Seq<char>,
    pub bio: Seq<char>,
}

impl View for ApplicantParams {
    type V = ApplicantParamsView;

    open spec fn view(&self) -> ApplicantParamsView {
        ApplicantParamsView {
            first_name: self.first_name@,
            last_name: self.last_name@,
            nickname: self.nickname@,
            bio: self.bio@,
        }
    }
}

impl Clone for ApplicantParams {
    fn clone(&self) -> (copy: Self)
        ensures
            copy@ == self@,
    {
        ApplicantParams {
            first_name: self.first_name.clone(),
            last_name: self.last_name.clone(),
            nickname: self.nickname.clone(),
            bio: self.bio.clone(),
        }
    }
}

/// The profile of an applicant as it is stored, with its skill set keyed by
/// skill id.
#[derive(Debug, PartialEq, Eq)]
pub struct ApplicantProfile {
    pub id: Identity,
    pub first_name: String,
    pub last_name: String,
    pub nickname: String,
    pub bio: String,
    pub created_at: u64,
    pub skills: BTreeMap<u16, Skill>,
}

/// What an [`ApplicantProfile`] stands for.
pub struct ApplicantProfileView {
    pub id: Seq<u8>,
    pub first_name: Seq<char>,
    pub last_name: Seq<char>,
    pub nickname: Seq<char>,
    pub bio: Seq<char>,
    pub created_at: u64,
    pub skills: Map<u16, SkillView>,
}

impl View for ApplicantProfile {
    type V = ApplicantProfileView;

    open spec fn view(&self) -> ApplicantProfileView {
        ApplicantProfileView {
            id: self.id@,
            first_name: self.first_name@,
            last_name: self.last_name@,
            nickname: self.nickname@,
            bio: self.bio@,
            created_at: self.created_at,
            skills: skill_map_view(self.skills@),
        }
    }
}

impl Clone for ApplicantProfile {
    fn clone(&self) -> (copy: Self)
        ensures
            copy@ == self@,
    {
        ApplicantProfile {
            id: self.id.clone(),
            first_name: self.first_name.clone(),
            last_name: self.last_name.clone(),
            nickname: self.nickname.clone(),
            bio: self.bio.clone(),
            created_at: self.created_at,
            skills: self.skills.clone(),
        }
    }
}

impl ApplicantParamsView {
    /// The profile that `who` gets from these parameters at time `now`, with
    /// the skill set `skills`.
    pub open spec fn profile(
        self,
        who: Seq<u8>,
        now: u64,
        skills: Map<u16, SkillView>,
    ) -> ApplicantProfileView {
        ApplicantProfileView {
            id: who,
            first_name: self.first_name,
            last_name: self.last_name,
            nickname: self.nickname,
            bio: self.bio,
            created_at: now,
            skills,
        }
    }
}

/// The profile of an applicant as it is handed out, with its skills in
/// ascending order of their keys.
#[derive(Debug, PartialEq, Eq)]
pub struct ApplicantProfileResponse {
    pub id: Identity,
    pub first_name: String,
    pub last_name: String,
    pub nickname: String,
    pub bio: String,
    pub created_at: u64,
    pub skills: Vec<Skill>,
}

/// What an [`ApplicantProfileResponse`] stands for.
pub struct ApplicantProfileResponseView {
    pub id: Seq<u8>,
    pub first_name: Seq<char>,
    pub last_name: Seq<char>,
    pub nickname: Seq<char>,
    pub bio: Seq<char>,
    pub created_at: u64,
    pub skills: Seq<SkillView>,
}

impl View for ApplicantProfileResponse {
    type V = ApplicantProfileResponseView;

    open spec fn view(&self) -> ApplicantProfileResponseView {
        ApplicantProfileResponseView {
            id: self.id@,
            first_name: self.first_name@,
            last_name: self.last_name@,
            nickname: self.nickname@,
            bio: self.bio@,
            created_at: self.created_at,
            skills: skill_seq_view(self.skills@),
        }
    }
}

impl ApplicantProfile {
    /// This profile as it is handed out.
    pub fn response(&self) -> (response: ApplicantProfileResponse)
        ensures
            response@ == self@.response(),
    {
        ApplicantProfileResponse {
            id: self.id.clone(),
            first_name: self.first_name.clone(),
            last_name: self.last_name.clone(),
            nickname: self.nickname.clone(),
            bio: self.bio.clone(),
            created_at: self.created_at,
            skills: skills_by_id(&self.skills),
        }
    }
}

impl ApplicantProfileView {
    /// This profile as it is handed out.
    pub open spec fn response(self) -> ApplicantProfileResponseView {
        ApplicantProfileResponseView {
            id: self.id,
            first_name: self.first_name,
            last_name: self.last_name,
            nickname: self.nickname,
            bio: self.bio,
            created_at: self.created_at,
            skills: skills_in_order(self.skills),
        }
    }
}

/// What a company submits about a job.
#[derive(Debug, PartialEq, Eq)]
pub struct JobParams {
    pub position: String,
    pub description: String,
    pub bounty: u64,
}

/// What [`JobParams`] stand for.
pub struct JobParamsView {
    pub position: Seq<char>,
    pub description: Seq<char>,
    pub bounty: u64,
}

impl View for JobParams {
    type V = JobParamsView;

    open spec fn view(&self) -> JobParamsView {
        JobParamsView {
            position: self.position@,
            description: self.description@,
            bounty: self.bounty,
        }
    }
}

impl Clone for JobParams {
    fn clone(&self) -> (copy: Self)
        ensures
            copy@ == self@,
    {
        JobParams {
            position: self.position.clone(),
            description: self.description.clone(),
            bounty: self.bounty,
        }
    }
}

/// A job as it is stored, with its required skills keyed by skill id.
#[derive(Debug, PartialEq, Eq)]
pub struct Job {
    pub id: u64,
    pub company_id: Identity,
    pub position: String,
    pub description: String,
    pub bounty: u64,
    pub status: JobStatus,
    pub required_skills: BTreeMap<u16, Skill>,
}

/// What a [`Job`] stands for.
pub struct JobView {
    pub id: u64,
    pub company_id: Seq<u8>,
    pub position: Seq<char>,
    pub description: Seq<char>,
    pub bounty: u64,
    pub status: JobStatus,
    pub required_skills: Map<u16, SkillView>,
}

impl View for Job {
    type V = JobView;

    open spec fn view(&self) -> JobView {
        JobView {
            id: self.id,
            company_id: self.company_id@,
            position: self.position@,
            description: self.description@,
            bounty: self.bounty,
            status: self.status,
            required_skills: skill_map_view(self.required_skills@),
        }
    }
}

impl Clone for Job {
    fn clone(&self) -> (copy: Self)
        ensures
            copy@ == self@,
    {
        Job {
            id: self.id,
            company_id: self.company_id.clone(),
            position: self.position.clone(),
            description: self.description.clone(),
            bounty: self.bounty,
            status: self.status,
            required_skills: self.required_skills.clone(),
        }
    }
}

impl JobParamsView {
    /// The open job with id `id` that company `who` gets from these
    /// parameters, with the required skills `skills`.
    pub open spec fn job(self, id: u64, who: Seq<u8>, skills: Map<u16, SkillView>) -> JobView {
        JobView {
            id,
            company_id: who,
            position: self.position,
            description: self.description,
            bounty: self.bounty,
            status: JobStatus::Open,
            required_skills: skills,
        }
    }
}

/// A job as it is handed out, with its required skills in ascending order of
/// their keys.
#[derive(Debug, PartialEq, Eq)]
pub struct JobResponse {
    pub id: u64,
    pub company_id: Identity,
    pub position: String,
    pub description: String,
    pub bounty: u64,
    pub status: JobStatus,
    pub required_skills: Vec<Skill>,
}

/// What a [`JobResponse`] stands for.
pub struct JobResponseView {
    pub id: u64,
    pub company_id: Seq<u8>,
    pub position: Seq<char>,
    pub description: Seq<char>,
    pub bounty: u64,
    pub status: JobStatus,
    pub required_skills: Seq<SkillView>,
}

impl View for JobResponse {
    type V = JobResponseView;

    open spec fn view(&self) -> JobResponseView {
        JobResponseView {
            id: self.id,
            company_id: self.company_id@,
            position: self.position@,
            description: self.description@,
            bounty: self.bounty,
            status: self.status,
            required_skills: skill_seq_view(self.required_skills@),
        }
    }
}

impl Job {
    /// This job as it is handed out.
    pub fn response(&self) -> (response: JobResponse)
        ensures
            response@ == self@.response(),
    {
        JobResponse {
            id: self.id,
            company_id: self.company_id.clone(),
            position: self.position.clone(),
            description: self.description.clone(),
            bounty: self.bounty,
            status: self.status,
            required_skills: skills_by_id(&self.required_skills),
        }
    }
}

impl JobView {
    /// This job as it is handed out.
    pub open spec fn response(self) -> JobResponseView {
        JobResponseView {
            id: self.id,
            company_id: self.company_id,
            position: self.position,
            description: self.description,
            bounty: self.bounty,
            status: self.status,
            required_skills: skills_in_order(self.required_skills),
        }
    }

    /// This job with the status `status`.
    pub open spec fn with_status(self, status: JobStatus) -> JobView {
        JobView { status, ..self }
    }
}

/// What an applicant submits to apply to a job.
#[derive(Debug, PartialEq, Eq)]
pub struct ApplicationParams {
    pub job_id: u64,
    pub contact_email: String,
    pub salary_from: u64,
    pub salary_to: u64,
}

/// What [`ApplicationParams`] stand for.
pub struct ApplicationParamsView {
    pub job_id: u64,
    pub contact_email: Seq<char>,
    pub salary_from: u64,
    pub salary_to: u64,
}

impl View for ApplicationParams {
    type V = ApplicationParamsView;

    open spec fn view(&self) -> ApplicationParamsView {
        ApplicationParamsView {
            job_id: self.job_id,
            contact_email: self.contact_email@,
            salary_from: self.salary_from,
            salary_to: self.salary_to,
        }
    }
}

impl Clone for ApplicationParams {
    fn clone(&self) -> (copy: Self)
        ensures
            copy@ == self@,
    {
        ApplicationParams {
            job_id: self.job_id,
            contact_email: self.contact_email.clone(),
            salary_from: self.salary_from,
            salary_to: self.salary_to,
        }
    }
}

/// An application of an applicant to a job.
#[derive(Debug, PartialEq, Eq)]
pub struct Application {
    pub id: u64,
    pub applicant_id: Identity,
    pub job_id: u64,
    pub contact_email: String,
    pub status: ApplicationStatus,
    pub salary_from: u64,
    pub salary_to: u64,
}

/// What an [`Application`] stands for.
pub struct ApplicationView {
    pub id: u64,
    pub applicant_id: Seq<u8>,
    pub job_id: u64,
    pub contact_email: Seq<char>,
    pub status: ApplicationStatus,
    pub salary_from: u64,
    pub salary_to: u64,
}

impl View for Application {
    type V = ApplicationView;

    open spec fn view(&self) -> ApplicationView {
        ApplicationView {
            id: self.id,
            applicant_id: self.applicant_id@,
            job_id: self.job_id,
            contact_email: self.contact_email@,
            status: self.status,
            salary_from: self.salary_from,
            salary_to: self.salary_to,
        }
    }
}

impl Clone for Application {
    fn clone(&self) -> (copy: Self)
        ensures
            copy@ == self@,
    {
        Application {
            id: self.id,
            applicant_id: self.applicant_id.clone(),
            job_id: self.job_id,
            contact_email: self.contact_email.clone(),
            status: self.status,
            salary_from: self.salary_from,
            salary_to: self.salary_to,
        }
    }
}

impl ApplicationParamsView {
    /// The application with id `id` that applicant `who` gets from these
    /// parameters.
    pub open spec fn application(self, id: u64, who: Seq<u8>) -> ApplicationView {
        ApplicationView {
            id,
            applicant_id: who,
            job_id: self.job_id,
            contact_email: self.contact_email,
            status: ApplicationStatus::Applied,
            salary_from: self.salary_from,
            salary_to: self.salary_to,
        }
    }
}

impl ApplicationView {
    /// This application with the status `status`.
    pub open spec fn with_status(self, status: ApplicationStatus) -> ApplicationView {
        ApplicationView { status, ..self }
    }
}

} // verus!
