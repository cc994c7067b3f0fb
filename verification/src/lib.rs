//! A record-keeping backend that matches companies and applicants through
//! jobs and applications.
//!
//! The [`backend::Backend`] owns the stores: the profiles of companies and
//! applicants, the jobs, the applications and the registry of skills. Its
//! operations take the identity of the caller as an argument. What each
//! operation returns and changes is stated over a model of the stores,
//! [`model::BackendView`], and proved; [`laws`] holds what follows for every
//! state and every run of operations.

pub mod backend;
pub mod btree_keys;
pub mod denial;
pub mod history;
pub mod identity;
pub mod identity_map;
pub mod ids;
pub mod laws;
pub mod model;
pub mod order;
pub mod pagination;
pub mod preservation;
pub mod records;
pub mod skills;
pub mod status;
pub mod text;

pub use backend::Backend;
pub use denial::{Denial, Role};
pub use identity::Identity;
pub use records::{
    ApplicantParams, ApplicantProfile, ApplicantProfileResponse, Application, ApplicationParams,
    ApplicationStatus, CompanyParams, CompanyProfile, Job, JobParams, JobResponse, JobStatus,
    Skill,
};
pub use skills::update_skill;
