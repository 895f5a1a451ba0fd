//! Notes for the window and the files at hand: the sampler of the focused
//! window, the consumer of file changes, the store of notes with its
//! append-only log, the dispatcher that serves them, and what the user
//! interface decides.

pub mod cacher;
pub mod clock;
pub mod config;
pub mod dispatcher;
pub mod gatherer;
pub mod notes;
pub mod signals;
pub mod text;
pub mod ui;
