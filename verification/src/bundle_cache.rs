//! The file-backed bundle cache: its accounting index, the admission sweep, the download
//! manifests, content addresses and the registry of open bundles.

pub mod index;
pub mod sweep;
pub mod address;
pub mod manifest;
pub mod store;
pub mod admission;
