//! The worker runtime: how it boots, what it mounts, and how its event loop is driven.

pub mod assemble;
pub mod boot;
pub mod event_loop;
pub mod memory;
pub mod mounts;
pub mod run;
