//! Keeps the `aws-auth` identity-mapping document in step with the live
//! `IAMIdentityMapping` resources of a cluster.

pub mod arn;
pub mod document;
pub mod error;
pub mod laws;
pub mod merge;
pub mod model;
pub mod reconciler;
pub mod seq_facts;
