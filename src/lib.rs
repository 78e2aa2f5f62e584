//! Reconciliation engine that brings a destination bucket in line with a
//! source bucket: paginated listing, the diff between the two listings,
//! multipart part planning, the per-object transfer protocol, bucket
//! provisioning, and the aggregation of outcomes and totals.

pub mod config;
pub mod listing;
pub mod multipart;
pub mod object;
pub mod plan;
pub mod provision;
pub mod report;
pub mod stats;
pub mod transfer;
