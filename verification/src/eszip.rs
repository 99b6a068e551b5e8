//! Bundle archives: the data section that holds module sources, the entries that an archive
//! unpacks to, and what goes into a new archive.

pub mod section;
pub mod read_all;
pub mod entries;
pub mod generate;
pub mod lazy;
