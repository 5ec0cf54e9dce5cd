//! Lifebot: aquatics scheduling and pool-safety logic.
//!
//! The library holds the decisions of the Lifebot operations assistant:
//! shift eligibility rules, next-cycle draft decisions, input validation,
//! Sling data mapping, Sentinel alert handling and the service-level
//! views built from stored records.

pub mod text;
pub mod calendar;
pub mod policies;
pub mod scheduling;
pub mod validate;
pub mod sling;
pub mod sentinel;
pub mod providers;
pub mod assistant;
pub mod import;
pub mod service;
