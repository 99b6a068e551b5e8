//! What the services of bundling are made from.

use vstd::prelude::*;

use crate::deno_options::{CacheSetting, DenoOptions, NodeModulesDirMode};
use crate::worker::start::PermissionsOptions;

verus! {

/// The options have not been given.
#[derive(Debug, Clone, Copy, PartialEq, Eq, Structural)]
pub struct OptionsMissing;

impl OptionsMissing {
    pub fn message(&self) -> (r: String)
        ensures
            r@ == "options must be specified"@,
    {
        "options must be specified".to_owned()
    }
}

/// The flags that the services are made with.
#[derive(Debug)]
pub struct ServiceFlags {
    pub script: String,
    pub node_modules_dir: Option<NodeModulesDirMode>,
    pub no_npm: bool,
    pub cached_only: bool,
    pub reload: bool,
    pub no_remote: bool,
}

/// Collects what the services of bundling are made from.
#[derive(Debug)]
pub struct EmitterFactory {
    pub cache_strategy: Option<CacheSetting>,
    pub deno_options: Option<DenoOptions>,
    pub file_fetcher_allow_remote: bool,
    pub permissions_options: Option<PermissionsOptions>,
}

impl EmitterFactory {
    /// Nothing is given, and remote modules may be fetched.
    pub fn new() -> (r: EmitterFactory)
        ensures
            r == (EmitterFactory {
                cache_strategy: None,
                deno_options: None,
                file_fetcher_allow_remote: true,
                permissions_options: None,
            }),
    {
        EmitterFactory {
            cache_strategy: None,
            deno_options: None,
            file_fetcher_allow_remote: true,
            permissions_options: None,
        }
    }

    /// The options, which must have been given.
    pub fn deno_options(&self) -> (r: Result<&DenoOptions, OptionsMissing>)
        ensures
            match self.deno_options {
                Some(o) => r is Ok && *(r->Ok_0) == o,
                None => r is Err,
            },
    {
        match &self.deno_options {
            Some(o) => Ok(o),
            None => Err(OptionsMissing),
        }
    }

    pub fn set_deno_options(&mut self, value: DenoOptions)
        ensures
            *final(self) == (EmitterFactory { deno_options: Some(value), ..*old(self) }),
    {
        self.deno_options = Some(value);
    }

    pub fn set_cache_strategy(&mut self, value: Option<CacheSetting>)
        ensures
            *final(self) == (EmitterFactory { cache_strategy: value, ..*old(self) }),
    {
        self.cache_strategy = value;
    }

    pub fn set_file_fetcher_allow_remote(&mut self, value: bool)
        ensures
            *final(self) == (EmitterFactory { file_fetcher_allow_remote: value, ..*old(self) }),
    {
        self.file_fetcher_allow_remote = value;
    }

    pub fn permissions_options(&self) -> (r: &Option<PermissionsOptions>)
        ensures
            *r == self.permissions_options,
    {
        &self.permissions_options
    }

    pub fn set_permissions_options(&mut self, value: Option<PermissionsOptions>)
        ensures
            *final(self) == (EmitterFactory { permissions_options: value, ..*old(self) }),
    {
        self.permissions_options = value;
    }

    /// The flags that the services are made with, once the options have been given.
    pub fn cli_factory(&self) -> (r: Result<ServiceFlags, OptionsMissing>)
        ensures
            r is Err <==> self.deno_options is None,
            r matches Ok(f) ==> {
                let o = self.deno_options->0;
                &&& f.script@ == match o.builder.entrypoint {
                    Some(e) => e@,
                    None => Seq::empty(),
                }
                &&& f.node_modules_dir == o.workspace.node_modules_dir
                &&& f.no_npm == (o.builder.no_npm == Some(true))
                &&& f.cached_only == (self.cache_strategy == Some(CacheSetting::Only))
                &&& f.reload == (self.cache_strategy == Some(CacheSetting::ReloadAll))
                &&& f.no_remote == !self.file_fetcher_allow_remote
            },
    {
        let options = match self.deno_options() {
            Ok(o) => o,
            Err(e) => {
                return Err(e);
            },
        };
        let script: String = match options.entrypoint() {
            Some(e) => e.clone(),
            None => String::new(),
        };
        let (cached_only, reload) = match self.cache_strategy {
            Some(CacheSetting::Only) => (true, false),
            Some(CacheSetting::ReloadAll) => (false, true),
            _ => (false, false),
        };
        Ok(
            ServiceFlags {
                script,
                node_modules_dir: options.node_modules_dir(),
                no_npm: options.no_npm(),
                cached_only,
                reload,
                no_remote: !self.file_fetcher_allow_remote,
            },
        )
    }
}

} // verus!
