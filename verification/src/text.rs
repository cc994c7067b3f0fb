//! Case normalization of submitted texts.
//!
//! Texts are stored in lowercase. The lowercase form of a text is computed by
//! the standard library and is not modelled here: it has a name, and the one
//! function that calls the standard library says that it returns what the
//! name stands for.

use crate::records::{
    ApplicantParams, ApplicantParamsView, ApplicationParams, ApplicationParamsView, CompanyParams,
    CompanyParamsView, JobParams, JobParamsView,
};
use vstd::prelude::*;

verus! {

/// The lowercase form of `text`: what `str::to_lowercase` returns for it.
pub uninterp spec fn lowercase(text: Seq<char>) -> Seq<char>;

/// Calls `str::to_lowercase`, which returns the lowercase equivalent of a
/// string as a new `String`. The result depends on the characters of `text`
/// alone; the contract gives it its name and claims nothing else of it.
#[verifier::external_body]
fn to_lowercase(text: &String) -> (lower: String)
    ensures
        lower@ == lowercase(text@),
{
    text.to_lowercase()
}

impl CompanyParamsView {
    /// These parameters with every text in lowercase.
    pub open spec fn lowercased(self) -> CompanyParamsView {
        CompanyParamsView {
            name: lowercase(self.name),
            logo: lowercase(self.logo),
            twitter: lowercase(self.twitter),
            website: lowercase(self.website),
        }
    }
}

impl CompanyParams {
    /// These parameters with every text in lowercase.
    pub fn lowercased(&self) -> (lower: CompanyParams)
        ensures
            lower@ == self@.lowercased(),
    {
        CompanyParams {
            name: to_lowercase(&self.name),
            logo: to_lowercase(&self.logo),
            twitter: to_lowercase(&self.twitter),
            website: to_lowercase(&self.website),
        }
    }
}

impl ApplicantParamsView {
    /// These parameters with every text in lowercase.
    pub open spec fn lowercased(self) -> ApplicantParamsView {
        ApplicantParamsView {
            first_name: lowercase(self.first_name),
            last_name: lowercase(self.last_name),
            nickname: lowercase(self.nickname),
            bio: lowercase(self.bio),
        }
    }
}

impl ApplicantParams {
    /// These parameters with every text in lowercase.
    pub fn lowercased(&self) -> (lower: ApplicantParams)
        ensures
            lower@ == self@.lowercased(),
    {
        ApplicantParams {
            first_name: to_lowercase(&self.first_name),
            last_name: to_lowercase(&self.last_name),
            nickname: to_lowercase(&self.nickname),
            bio: to_lowercase(&self.bio),
        }
    }
}

impl JobParamsView {
    /// These parameters with every text in lowercase.
    pub open spec fn lowercased(self) -> JobParamsView {
        JobParamsView {
            position: lowercase(self.position),
            description: lowercase(self.description),
            bounty: self.bounty,
        }
    }
}

impl JobParams {
    /// These parameters with every text in lowercase.
    pub fn lowercased(&self) -> (lower: JobParams)
        ensures
            lower@ == self@.lowercased(),
    {
        JobParams {
            position: to_lowercase(&self.position),
            description: to_lowercase(&self.description),
            bounty: self.bounty,
        }
    }
}

impl ApplicationParamsView {
    /// These parameters with every text in lowercase.
    pub open spec fn lowercased(self) -> ApplicationParamsView {
        ApplicationParamsView {
            job_id: self.job_id,
            contact_email: lowercase(self.contact_email),
            salary_from: self.salary_from,
            salary_to: self.salary_to,
        }
    }
}

impl ApplicationParams {
    /// These parameters with every text in lowercase.
    pub fn lowercased(&self) -> (lower: ApplicationParams)
        ensures
            lower@ == self@.lowercased(),
    {
        ApplicationParams {
            job_id: self.job_id,
            contact_email: to_lowercase(&self.contact_email),
            salary_from: self.salary_from,
            salary_to: self.salary_to,
        }
    }
}

} // verus!
