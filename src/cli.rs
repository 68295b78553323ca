use std::path::PathBuf;
use vstd::prelude::*;

use crate::online::{join, joined};
use crate::types::{texts, LookupOptions};

verus! {

/// Subcommands of the command line.
#[derive(Debug)]
pub enum Commands {
    /// Installs the dataset, from a local file when a path is given.
    Setup { import_path: Option<PathBuf> },
}

/// Parsed command-line arguments.
#[derive(Debug)]
pub struct Cli {
    pub command: Option<Commands>,
    pub query: Vec<String>,
    pub show_english: bool,
    pub show_examples: bool,
    pub force_online: bool,
    pub max_examples: usize,
}

impl Cli {
    /// The query words joined by single spaces.
    pub fn query_text(&self) -> (r: String)
        ensures
            r@ == joined(texts(self.query@), " "@),
    {
        join(&self.query, " ")
    }

    /// The lookup options the flags ask for; forced-remote mode always shows
    /// the source-language definition, since the remote source has no
    /// translation.
    pub fn lookup_options(&self) -> (r: LookupOptions)
        ensures
            r.show_english == (self.show_english || self.force_online),
            r.show_examples == self.show_examples,
            r.force_online == self.force_online,
            r.max_examples == self.max_examples,
    {
        LookupOptions {
            show_english: self.show_english || self.force_online,
            show_examples: self.show_examples,
            force_online: self.force_online,
            max_examples: self.max_examples,
        }
    }
}

} // verus!
