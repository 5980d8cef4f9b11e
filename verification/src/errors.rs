pub mod file_io;
pub mod not_supported;
pub mod parse;
pub mod path;
pub mod usage;
pub mod value_type;

use vstd::prelude::*;
use crate::errors::file_io::FileIoError;
use crate::errors::not_supported::NotSupportedError;
use crate::errors::parse::ParseError;
use crate::errors::path::PathError;
use crate::errors::usage::UsageError;
use crate::errors::value_type::TypeError;

verus! {

/// The closed set of failure categories, each with a fixed exit code.
pub enum ConfigError {
    Usage(UsageError),
    FileIO(FileIoError),
    Parse(ParseError),
    Path(PathError),
    Type(TypeError),
    NotSupported(NotSupportedError),
}

/// The message of a failure, whichever category it falls in.  Every
/// message renders on one line except parse failures, which append the
/// caret snippet.
pub open spec fn spec_config_message(e: ConfigError) -> Seq<char> {
    match e {
        ConfigError::Usage(u) => crate::errors::usage::spec_usage_message(u),
        ConfigError::FileIO(f) => crate::errors::file_io::spec_file_io_message(f),
        ConfigError::Parse(p) => crate::errors::parse::spec_parse_message(p),
        ConfigError::Path(p) => crate::errors::path::spec_path_message(p@),
        ConfigError::Type(t) => crate::errors::value_type::spec_type_message(t),
        ConfigError::NotSupported(n) => crate::errors::not_supported::spec_not_supported_message(
            n,
        ),
    }
}

impl ConfigError {
    /// Renders the failure exactly as the message model states it: the
    /// single presentation layer for every category.
    pub fn message(&self) -> (r: String)
        ensures
            r@ == spec_config_message(*self),
    {
        match self {
            ConfigError::Usage(u) => u.message(),
            ConfigError::FileIO(f) => f.message(),
            ConfigError::Parse(p) => p.message(),
            ConfigError::Path(p) => p.message(),
            ConfigError::Type(t) => t.message(),
            ConfigError::NotSupported(n) => n.message(),
        }
    }

    /// The fixed process exit code of each category.
    pub open spec fn spec_exit_code(self) -> int {
        match self {
            ConfigError::Usage(_) => 2,
            ConfigError::FileIO(_) => 3,
            ConfigError::Parse(_) => 3,
            ConfigError::Path(_) => 4,
            ConfigError::Type(_) => 5,
            ConfigError::NotSupported(_) => 6,
        }
    }

    /// The fixed process exit code of each category: usage 2, file and
    /// parse faults 3, path resolution 4, type mismatch 5, unsupported 6.
    pub fn exit_code(&self) -> (r: u8)
        ensures
            r as int == self.spec_exit_code(),
    {
        match self {
            ConfigError::Usage(_) => 2,
            ConfigError::FileIO(_) => 3,
            ConfigError::Parse(_) => 3,
            ConfigError::Path(_) => 4,
            ConfigError::Type(_) => 5,
            ConfigError::NotSupported(_) => 6,
        }
    }
}

} // verus!
