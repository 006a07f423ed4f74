//! The settings of the supervised process and of the front end.
use vstd::prelude::*;
use crate::text::{split_on_spaces, split_spaces};

verus! {

/// Where the front end's files are, and how to run the supervised process.
pub struct Config {
    pub front_build_dir: String,
    pub server_path: String,
    pub command: String,
    pub args: Vec<String>,
}

impl Config {
    /// A configuration whose arguments are `args_line` split at every space.
    pub fn new(front_build_dir: String, server_path: String, command: String, args_line: &str) -> (r: Config)
        ensures
            r.front_build_dir@ == front_build_dir@,
            r.server_path@ == server_path@,
            r.command@ == command@,
            r.args@.len() == split_spaces(args_line@).len(),
            forall|i: int| 0 <= i < r.args@.len() ==> #[trigger] r.args@[i]@ == split_spaces(args_line@)[i],
    {
        Config { front_build_dir, server_path, command, args: split_on_spaces(args_line) }
    }
}

} // verus!
