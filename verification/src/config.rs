//! The server's configuration, resolved once from the process arguments.

use vstd::prelude::*;

verus! {

/// How many bytes of a request are read from a connection. A request that
/// does not fit is cut off there.
pub const BUFFER_SIZE: usize = 1024;

/// Why the process arguments give no serving directory.
#[derive(Clone, Copy, Debug, PartialEq, Eq, Structural)]
pub enum ConfigError {
    /// No argument follows the program's name.
    MissingFlag,
    /// No argument follows the flag.
    MissingDirectory,
    /// The first argument is not `--directory`.
    InvalidFlag,
}

impl ConfigError {
    /// A short description of the error, for logs.
    pub fn message(&self) -> (text: &'static str)
        ensures
            text@ == match *self {
                ConfigError::MissingFlag => "Failed to get flag"@,
                ConfigError::MissingDirectory => "Failed to get directory"@,
                ConfigError::InvalidFlag => "Invalid flag for executable"@,
            },
    {
        match self {
            ConfigError::MissingFlag => "Failed to get flag",
            ConfigError::MissingDirectory => "Failed to get directory",
            ConfigError::InvalidFlag => "Invalid flag for executable",
        }
    }
}

/// The address that the server listens on.
pub fn listen_address() -> (address: &'static str)
    ensures
        address@ == "127.0.0.1:4221"@,
{
    "127.0.0.1:4221"
}

/// The values of a list of strings, in order.
pub open spec fn texts(arguments: Seq<String>) -> Seq<Seq<char>> {
    Seq::new(arguments.len(), |i: int| arguments[i]@)
}

/// The serving directory that the process arguments name. The arguments
/// begin with the program's name; after it come the flag `--directory` and
/// the directory's path. Further arguments are not looked at.
pub open spec fn directory_of(arguments: Seq<Seq<char>>) -> Result<Seq<char>, ConfigError> {
    if arguments.len() < 2 {
        Err(ConfigError::MissingFlag)
    } else if arguments.len() < 3 {
        Err(ConfigError::MissingDirectory)
    } else if arguments[1] != "--directory"@ {
        Err(ConfigError::InvalidFlag)
    } else {
        Ok(arguments[2])
    }
}

/// Resolves the serving directory from the process arguments.
pub fn serving_directory(arguments: &Vec<String>) -> (r: Result<String, ConfigError>)
    ensures
        match r {
            Ok(directory) => directory_of(texts(arguments@)) == Ok::<Seq<char>, ConfigError>(
                directory@,
            ),
            Err(e) => directory_of(texts(arguments@)) == Err::<Seq<char>, ConfigError>(e),
        },
{
    if arguments.len() < 2 {
        return Err(ConfigError::MissingFlag);
    }
    if arguments.len() < 3 {
        return Err(ConfigError::MissingDirectory);
    }
    let flag: String = "--directory".to_owned();
    if arguments[1] != flag {
        return Err(ConfigError::InvalidFlag);
    }
    Ok(arguments[2].clone())
}

} // verus!
