//! The gateway's own response documents: JSON:API error documents and the
//! health-check status document.

pub mod errors;
pub mod statuses;
