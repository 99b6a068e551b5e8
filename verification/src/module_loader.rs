//! Finding, resolving and loading the modules of an archive.

pub mod load;
pub mod lookup;
pub mod resolve;
pub mod setup;
