//! Verified core of the Agent Workbench decomposition ledger: the Decomposition
//! Plan document model and its validation, plan identities, lifecycle and
//! reconciliation decisions, and the project status decisions.

pub mod text;
pub mod path;
pub mod order;
pub mod document;
pub mod issue;
pub mod validation;
pub mod metadata;
pub mod identity;
pub mod records;
pub mod actions;
pub mod owner;
pub mod lifecycle;
pub mod ingress;
pub mod design;
pub mod reconciliation;
pub mod scope;
pub mod carry;
pub mod compatibility;
pub mod successor;
pub mod projection;
pub mod publication;
pub mod resolution;
pub mod install;
pub mod status;
pub mod laws;
