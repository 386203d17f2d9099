//! Plant-care tracking: due-date computation, urgency sorting, attention
//! filtering, and the credential / session-token guard over per-user
//! data.

pub mod digits;
pub mod plant;
pub mod schedule;
pub mod attention;
pub mod sort;
pub mod auth;
pub mod session;
