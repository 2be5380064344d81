//! Access-control decisions over a policy snapshot of groups, ordered rule
//! lists and default policies.

pub mod context;
pub mod engine;
pub mod groups;
pub mod laws;
pub mod loader;
pub mod matcher;
pub mod model;
pub mod parse;
pub mod report;
pub mod request;
pub mod text;

pub use context::RequestContext;
pub use groups::GroupMap;
pub use model::{
    AccessRequest, NacmCommandRule, NacmConfig, NacmGroup, NacmRule, NacmRuleList, Operation,
    OperationSet, RequestView, RuleEffect, ValidationResult,
};
