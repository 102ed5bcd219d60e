//! Session handling, request framing and the local project store of a
//! desktop project client.

pub mod client;
pub mod dispatch;
pub mod json;
pub mod projects;
