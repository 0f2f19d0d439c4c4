//! Turning invocation arguments into a search request.
use vstd::prelude::*;

verus! {

/// Why a search request could not be built from the arguments.
#[derive(Debug, Clone, Copy, PartialEq, Eq, Structural)]
pub enum ConfigError {
    /// No argument was left for the query.
    MissingQuery,
    /// No argument was left for the path of the file to search.
    MissingPath,
}

impl ConfigError {
    /// The line reported to the user. Both kinds keep the historical wording.
    pub fn message(&self) -> (r: &'static str)
        ensures
            r@ == "No query string"@,
    {
        "No query string"
    }
}

/// A validated search request.
#[derive(Debug, PartialEq)]
pub struct Config {
    /// The text to look for.
    pub query: String,
    /// Where the text to search is to be loaded from.
    pub file_path: String,
    /// Whether letters are compared without regard to case.
    pub ignore_case: bool,
}

impl Config {
    /// Builds a request from `args`, whose first element names the program
    /// and is skipped; the next two are the query and the file path, and any
    /// further ones are ignored. `ignore_case` says whether case-insensitive
    /// matching was asked for (by the environment, in the command-line tool).
    pub fn build(args: &[String], ignore_case: bool) -> (r: Result<Config, ConfigError>)
        ensures
            args@.len() <= 1 ==> r == Err::<Config, ConfigError>(ConfigError::MissingQuery),
            args@.len() == 2 ==> r == Err::<Config, ConfigError>(ConfigError::MissingPath),
            args@.len() >= 3 ==> (r matches Ok(c) && c.query@ == args@[1]@ && c.file_path@
                == args@[2]@ && c.ignore_case == ignore_case),
    {
        if args.len() < 2 {
            return Err(ConfigError::MissingQuery);
        }
        let query = args[1].clone();
        if args.len() < 3 {
            return Err(ConfigError::MissingPath);
        }
        let file_path = args[2].clone();
        Ok(Config { query, file_path, ignore_case })
    }
}

} // verus!
