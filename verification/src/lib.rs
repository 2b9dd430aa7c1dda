//! Least-privilege IAM policy construction from SDK call sites and
//! AccessDenied error messages.
//!
//! The crate covers the pipeline stages that are pure computation:
//! classifying call arguments, resolving ARN templates against an AWS
//! context, generating and merging policy statements, and parsing
//! AccessDenied messages into a structured diagnosis.  File, network and
//! process work stays with the caller, which hands plain values in.

pub mod analysis;
pub mod arguments;
pub mod arn;
pub mod catalog;
pub mod config;
pub mod context;
pub mod denial;
pub mod enrichment;
pub mod errors;
pub mod extraction;
pub mod policy;
pub mod render;
pub mod text;
