use vstd::prelude::*;
use crate::errors::parse::ConfigFormat;

verus! {

// ---------------------------------------------------------------------------
// The invocation surface, as plain data.  The argument parsing itself is
// an external collaborator; it hands the library these values.
// ---------------------------------------------------------------------------

/// The document format as chosen on the command line.
#[derive(Clone, Copy, Debug, PartialEq, Eq, Structural)]
pub enum Format {
    Json,
    Toml,
}

impl Format {
    /// The internal format tag this choice names.
    pub fn to_config_format(&self) -> (r: ConfigFormat)
        ensures
            *self is Json <==> r is Json,
            *self is Toml <==> r is Toml,
    {
        match self {
            Format::Json => ConfigFormat::Json,
            Format::Toml => ConfigFormat::Toml,
        }
    }
}

/// One invocation's subcommand and its arguments.
pub enum Command {
    Read { key_path: String },
    Assign { key_path: String, value: String },
    Delete { key_path: String },
    List { key_path: Option<String> },
}

/// One whole invocation: the file to operate on, the format when given
/// explicitly, and the subcommand.
pub struct Cli {
    pub file: String,
    pub format: Option<Format>,
    pub command: Command,
}

} // verus!
