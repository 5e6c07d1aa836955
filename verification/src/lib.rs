//! Verified core of Ember Bridge: navigation links, update gating, device
//! identity resolution and the durable transfer queue.
pub mod text;
pub mod net;
pub mod machine;
pub mod identity;
pub mod link;
pub mod error;
pub mod jobs;
pub mod upload;
pub mod update;
