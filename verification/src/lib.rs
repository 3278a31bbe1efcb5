//! Kraftverk: hardware eligibility policy, optimization vocabulary and
//! search planning, verified with Verus.

pub mod digest;
pub mod error;
pub mod text;
pub mod amd;
pub mod bandit;
pub mod candidate;
pub mod capabilities;
pub mod classification;
pub mod config;
pub mod constraints;
pub mod eligibility;
pub mod experiment;
pub mod fingerprint;
pub mod goals;
pub mod hill_climb;
pub mod inspect;
pub mod lineage;
pub mod measurement;
pub mod native;
pub mod objectives;
pub mod plugins;
pub mod profiles;
pub mod receipts;
pub mod recovery;
pub mod reports;
pub mod sdk;
pub mod sensors;
pub mod session;
pub mod topology;
