//! A dotfiles deployer: a declarative configuration names entries, each a
//! symbolic link to create or a shell command to run, optionally gated by tags.
//!
//! The library holds the configuration model, the schema that reads it from a
//! YAML document, tag filtering, path resolution and the planning of each
//! entry's action. Creating links and running commands is left to the caller,
//! which hands the outcomes back to be classified.
use vstd::prelude::*;

pub mod action;
pub mod order;
pub mod resolve;
pub mod schema;
pub mod tags;

verus! {

/// Why the action of one entry failed.
#[derive(Clone, Debug, PartialEq, Eq)]
pub enum Error {
    /// The command ran and exited with this code (`-1`: no code, e.g. a signal).
    Run(i32),
    /// The shell process could not be started; the system's message.
    CommandCreate(String),
    /// Creating the link, or an I/O step before it, failed; the system's message.
    Link(String),
    /// A resolved path is not valid text.
    Convert,
    /// A variable named in a path could not be looked up; its name.
    Expand(String),
    /// The platform name could not be read.
    Uname,
}

/// What an entry does.
#[derive(Clone, Debug, PartialEq, Eq)]
pub enum FileType {
    /// Link `dest` to the entry's key, both taken as paths.
    Link { dest: String },
    /// Run the entry's key as a shell command.
    Exec,
}

/// One configured unit of work; its key lives in `Config::files`.
#[derive(Clone, Debug, PartialEq, Eq)]
pub struct Entry {
    pub ft: FileType,
    /// Empty: always active.
    pub tags: Vec<String>,
}

/// The `general` section of a configuration.
#[derive(Clone, Debug, PartialEq, Eq)]
pub struct GeneralSettings {
    pub verbose: bool,
    /// Tags active on every run.
    pub default_tags: Vec<String>,
}

impl Default for GeneralSettings {
    fn default() -> (r: Self)
        ensures
            r.verbose == false,
            r.default_tags@.len() == 0,
    {
        GeneralSettings { verbose: false, default_tags: Vec::new() }
    }
}

/// A whole configuration. `files` is ordered by key, keys unique.
#[derive(Clone, Debug, PartialEq, Eq)]
pub struct Config {
    pub general: GeneralSettings,
    pub files: Vec<(String, Entry)>,
}

impl Config {
    /// The entries are ordered by key, each key once.
    pub open spec fn wf(&self) -> bool {
        order::keys_sorted(self.files@)
    }
}

} // verus!
