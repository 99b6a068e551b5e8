//! Reading permission descriptors: which directory relative paths count from, and which texts are
//! no descriptors.

use vstd::prelude::*;

use crate::paths::{
    absolute, components, is_absolute, is_plain_name, join_path, joined, law_joining_adds_a_component,
};

verus! {

/// Reads permission descriptors. Where a worker has a directory of its own, relative paths count
/// from there and not from the directory of the process.
#[derive(Debug)]
pub struct RuntimePermissionDescriptorParser {
    pub cwd_override: Option<String>,
}

/// A descriptor without a text.
#[derive(Debug, Clone, Copy, PartialEq, Eq, Structural)]
pub struct EmptyDescriptor;

impl RuntimePermissionDescriptorParser {
    pub fn new(cwd_override: Option<String>) -> (r: RuntimePermissionDescriptorParser)
        ensures
            r.cwd_override == cwd_override,
    {
        RuntimePermissionDescriptorParser { cwd_override }
    }

    /// The directory that programs are looked for in: the worker's own, or that of the process.
    pub fn resolve_cwd(&self, process_cwd: Option<String>) -> (r: Option<String>)
        ensures
            match self.cwd_override {
                Some(c) => r matches Some(s) && s@ == c@,
                None => r == process_cwd,
            },
    {
        match &self.cwd_override {
            Some(c) => Some(c.clone()),
            None => process_cwd,
        }
    }

    /// A path as it is handed on: a relative one from the worker's own directory, where it has one.
    pub open spec fn resolved(self, path: Seq<char>) -> Seq<char> {
        match self.cwd_override {
            Some(c) => if is_absolute(path) {
                path
            } else {
                joined(c@, path)
            },
            None => path,
        }
    }

    /// A path as it is handed on: a relative one from the worker's own directory, where it has one.
    pub fn resolve_relative(&self, path: &str) -> (r: String)
        ensures
            r@ == self.resolved(path@),
    {
        match &self.cwd_override {
            Some(c) => {
                if absolute(path) {
                    path.to_owned()
                } else {
                    join_path(c.as_str(), path)
                }
            },
            None => path.to_owned(),
        }
    }

    /// Whether a text can name a variable, a property of the system or a program: an empty one
    /// cannot.
    pub fn check_text(&self, text: &str) -> (r: Result<(), EmptyDescriptor>)
        ensures
            r is Ok <==> text@.len() > 0,
    {
        if text.is_empty() {
            Err(EmptyDescriptor)
        } else {
            Ok(())
        }
    }
}

/// A worker with an absolute directory of its own hands on absolute paths only, so that the
/// directory of the process has no say; and an absolute path is handed on as it is.
pub proof fn law_worker_paths_are_absolute(
    parser: RuntimePermissionDescriptorParser,
    path: Seq<char>,
)
    ensures
        parser.cwd_override matches Some(c) && is_absolute(c@) ==> is_absolute(
            parser.resolved(path),
        ),
        is_absolute(path) ==> parser.resolved(path) == path,
{
}

/// A relative path counts from the worker's own directory, step by step, and from nowhere else;
/// without such a directory it is handed on as it is.
pub proof fn law_relative_paths_count_from_the_worker(
    parser: RuntimePermissionDescriptorParser,
    name: Seq<char>,
)
    requires
        is_plain_name(name),
    ensures
        match parser.cwd_override {
            Some(c) => components(parser.resolved(name)) == components(c@).push(name),
            None => parser.resolved(name) == name,
        },
{
    if let Some(c) = parser.cwd_override {
        law_joining_adds_a_component(c@, name);
        assert(name.contains(name[0]));
    }
}

} // verus!
