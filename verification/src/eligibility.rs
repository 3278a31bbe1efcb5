//! AMD-only hardware eligibility (policy `amd-only-v1`).
//!
//! Every product surface consults this module; the policy decision itself is
//! the pure function [`evaluate::evaluate_from_facts`].

pub mod detect;
pub mod evaluate;
pub mod exit_codes;
pub mod hotplug;
pub mod mock_matrix;
pub mod types;
