//! Workers: how they are named and started, and how they are supervised to their end.

pub mod start;
pub mod supervisor;
pub mod surface;
pub mod driver;
