//! The background observers: the sampler of the focused window and the
//! consumer of file changes.

pub mod app_gatherer;
pub mod file_gatherer;
