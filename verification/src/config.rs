//! What a search is asked to do, as given on the command line.

use vstd::prelude::*;
use crate::error::GrepError;
use crate::pattern::{contains, contains_str};

verus! {

/// What to look for, where, and whether letter case counts.
#[derive(Debug, PartialEq, Eq)]
pub struct Config {
    /// The text to look for.
    pub query: String,
    /// The path of the file to look in.
    pub file_path: String,
    /// Whether letters match whatever their case.
    pub ignore_case: bool,
}

/// The word that, within the argument behind the file's path, asks for a
/// search that ignores case.
pub open spec fn ignore_case_marker() -> Seq<char> {
    "IGNORE_CASE"@
}

/// Whether case is ignored: the argument behind the file's path decides where
/// there is one, the environment where there is none.
pub open spec fn ignores_case(args: Seq<String>, set_in_environment: bool) -> bool {
    if args.len() > 3 {
        contains(args[3]@, ignore_case_marker())
    } else {
        set_in_environment
    }
}

impl Config {
    /// Reads the arguments of a command line: the program's name, the query,
    /// the path of the file, and optionally a word on case; what follows is
    /// passed over. Whether the variable `IGNORE_CASE` is set in the
    /// environment is for the caller to find out and pass in
    /// `set_in_environment`.
    ///
    /// Fails where the query or the path is missing, and says which.
    pub fn build(args: &[String], set_in_environment: bool) -> (built: Result<Config, GrepError>)
        ensures
            match built {
                Ok(config) => {
                    &&& args@.len() >= 3
                    &&& config.query@ == args@[1]@
                    &&& config.file_path@ == args@[2]@
                    &&& config.ignore_case == ignores_case(args@, set_in_environment)
                },
                Err(error) => {
                    &&& args@.len() < 3
                    &&& error matches GrepError::Argument(message)
                    &&& message@ == if args@.len() < 2 {
                        "Didn't get a query string"@
                    } else {
                        "Didn't get a file path"@
                    }
                },
            },
    {
        if args.len() < 2 {
            return Err(GrepError::Argument("Didn't get a query string".to_owned()));
        }
        if args.len() < 3 {
            return Err(GrepError::Argument("Didn't get a file path".to_owned()));
        }
        let query = args[1].clone();
        let file_path = args[2].clone();
        let ignore_case = if args.len() > 3 {
            contains_str(args[3].as_str(), "IGNORE_CASE")
        } else {
            set_in_environment
        };
        Ok(Config { query, file_path, ignore_case })
    }
}

} // verus!
