//! Verified core of the flow edge layer.

pub mod access;
pub mod bundle_cache;
pub mod byte_path;
pub mod deno_options;
pub mod embed;
pub mod emitter;
pub mod eszip;
pub mod eszip_trait;
pub mod flags;
pub mod flow_config;
pub mod flow_eszip;
pub mod flow_events;
pub mod graph;
pub mod inspector;
pub mod lifecycle;
pub mod module_loader;
pub mod paths;
pub mod permissions;
pub mod runtime;
pub mod snapshot;
pub mod source_map_store;
pub mod text;
pub mod urls;
pub mod worker;
