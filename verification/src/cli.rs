//! The configuration of a run and its validation.

use vstd::prelude::*;
use vstd::string::*;

verus! {

/// The configuration of a run.
#[derive(Debug)]
pub struct Cli {
    /// The output directory for the stored pages.
    pub output: String,
    /// The depth limit.
    pub depth: usize,
    /// The seed URLs.
    pub urls: Vec<String>,
}

/// Why a configuration is refused.
#[derive(Clone, Copy, Debug, PartialEq, Eq, Structural)]
pub enum ConfigError {
    /// The depth limit is zero.
    ZeroDepth,
    /// No seed URL is given.
    NoUrls,
}

/// The verdict on a configuration with this depth limit and this many seeds:
/// the depth is looked at first.
pub open spec fn verdict(depth: nat, seeds: nat) -> Result<(), ConfigError> {
    if depth == 0 {
        Err(ConfigError::ZeroDepth)
    } else if seeds == 0 {
        Err(ConfigError::NoUrls)
    } else {
        Ok(())
    }
}

/// The exit code of the program after `verdict`.
pub open spec fn exit_code_of(verdict: Result<(), ConfigError>) -> int {
    if verdict is Err {
        1
    } else {
        0
    }
}

impl Cli {
    /// Accepts a depth limit of at least one with at least one seed URL.
    pub fn validate(&self) -> (checked: Result<(), ConfigError>)
        ensures
            checked == verdict(self.depth as nat, self.urls@.len()),
    {
        if self.depth == 0 {
            Err(ConfigError::ZeroDepth)
        } else if self.urls.len() == 0 {
            Err(ConfigError::NoUrls)
        } else {
            Ok(())
        }
    }

    /// The exit code of the program: one for a refused configuration, zero
    /// otherwise.
    pub fn exit_code(checked: &Result<(), ConfigError>) -> (code: i32)
        ensures
            code == exit_code_of(*checked),
    {
        match checked {
            Ok(_) => 0,
            Err(_) => 1,
        }
    }
}

impl ConfigError {
    /// The message for the operator.
    pub fn message(&self) -> (text: String)
        ensures
            text@ == match *self {
                ConfigError::ZeroDepth => "depth must be at least 1"@,
                ConfigError::NoUrls => "at least one URL must be provided"@,
            },
    {
        match self {
            ConfigError::ZeroDepth => String::from_str("depth must be at least 1"),
            ConfigError::NoUrls => String::from_str("at least one URL must be provided"),
        }
    }
}

} // verus!
