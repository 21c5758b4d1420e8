//! The run configuration and its construction from an argument list.

use vstd::prelude::*;

verus! {

/// Why a configuration could not be built.
#[derive(Clone, Copy, Debug, PartialEq, Eq, Structural)]
pub enum ConfigError {
    /// Fewer than three arguments were supplied.
    InsufficientArguments,
}

impl ConfigError {
    /// A human-readable description of the error, for the caller to print.
    pub fn message(&self) -> (r: String)
        ensures
            r@ == "not enough arguments"@,
    {
        String::from_str("not enough arguments")
    }
}

/// The settings of one run: what to search for, in which file, and whether to
/// ignore case.
pub struct Config {
    pub query: String,
    pub file_path: String,
    pub ignore_case: bool,
}

impl Config {
    /// Builds a configuration from the process's argument list, whose first
    /// element is the program name; the query and file path follow it.
    /// The caller supplies `ignore_case` (true exactly when the
    /// `IGNORE_CASE` environment variable is present); reading the
    /// environment is the caller's side of the boundary.
    pub fn build(args: &[String], ignore_case: bool) -> (r: Result<Config, ConfigError>)
        ensures
            args@.len() < 3 ==> r == Err::<Config, ConfigError>(ConfigError::InsufficientArguments),
            args@.len() >= 3 ==> (r is Ok && r->Ok_0.query@ == args@[1]@
                && r->Ok_0.file_path@ == args@[2]@ && r->Ok_0.ignore_case == ignore_case),
    {
        if args.len() < 3 {
            return Err(ConfigError::InsufficientArguments);
        }
        let query = args[1].clone();
        let file_path = args[2].clone();
        Ok(Config { query, file_path, ignore_case })
    }
}

} // verus!
