//! Settings the application persists between runs. Reading and writing them
//! to disk is I/O and lives outside the verified core; the core carries the
//! values and their defaults.

use vstd::prelude::*;

verus! {

/// Where the application keeps its configuration file, logs, cache and
/// data, as plain path text.
#[derive(Debug, Clone)]
pub struct Config {
    pub path_to_config_file: String,
    pub log_dir: String,
    pub cache_dir: String,
    pub data_dir: String,
}

/// Settings of the explorer listing: how many entries a page shows, how
/// copied state names are joined, and how deep a dropped directory is
/// walked.
#[derive(Debug, Clone)]
pub struct ExplorerSettings {
    pub page_size: usize,
    pub delimeter: String,
    pub recursion_depth: usize,
}

impl Default for ExplorerSettings {
    fn default() -> (r: Self)
        ensures
            r.page_size == 20,
            r.delimeter@ == ", "@,
            r.recursion_depth == 20,
    {
        ExplorerSettings { page_size: 20, delimeter: ", ".to_owned(), recursion_depth: 20 }
    }
}

} // verus!
