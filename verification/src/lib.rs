//! Verified core of a Jitsi guest-return client: the backend data model,
//! URL and pipeline construction, and the decisions that drive a session.

pub mod error;
pub mod text;
pub mod jitsi;
pub mod query;
pub mod uri;
pub mod pipeline;
pub mod session;
pub mod rtc_stats;

pub use error::Error;
