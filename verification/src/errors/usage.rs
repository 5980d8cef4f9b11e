use vstd::prelude::*;

verus! {

/// Errors in how the tool was invoked; they exit with code 2.
pub enum UsageError {
    MissingFlag { flag: String, hint: String },
    InvalidChoice { provided: String, flag: String, valid: Vec<String> },
    ConflictingFlags { a: String, b: String, hint: String },
    MissingArgument { name: String, example: String },
    InvalidPathSyntax { input: String, example: String },
}

/// The one-line message of a usage failure.
pub open spec fn spec_usage_message(e: UsageError) -> Seq<char> {
    match e {
        UsageError::MissingFlag { flag, hint } => "UsageError: missing required flag "@ + flag@
            + ". "@ + hint@,
        UsageError::InvalidChoice { provided, flag, valid } => "UsageError: invalid value '"@
            + provided@ + "' for "@ + flag@ + ". Valid options: ["@
            + crate::strutil::spec_quoted_from(
            crate::strutil::strs_view(valid@),
            0,
        ) + "]. Example: --format json"@,
        UsageError::ConflictingFlags { a, b, hint } => "UsageError: flags "@ + a@ + " and "@ + b@
            + " cannot be used together. "@ + hint@,
        UsageError::MissingArgument { name, example } => "UsageError: missing argument "@ + name@
            + ". Example: "@ + example@,
        UsageError::InvalidPathSyntax { input, example } => (
        "UsageError: invalid key-path syntax: '"@ + input@ + "'. Example: "@ + example@),
    }
}

impl UsageError {
    /// Renders the failure on one line, exactly as the message model
    /// states it.
    pub fn message(&self) -> (r: String)
        ensures
            r@ == spec_usage_message(*self),
    {
        match self {
            UsageError::MissingFlag { flag, hint } => {
                let mut out = String::from_str("UsageError: missing required flag ");
                out.append(flag.as_str());
                out.append(". ");
                out.append(hint.as_str());
                proof {
                    assert(out@ =~= spec_usage_message(*self));
                }
                out
            },
            UsageError::InvalidChoice { provided, flag, valid } => {
                let mut out = String::from_str("UsageError: invalid value '");
                out.append(provided.as_str());
                out.append("' for ");
                out.append(flag.as_str());
                out.append(". Valid options: [");
                crate::strutil::append_quoted_from(&mut out, valid, 0);
                out.append("]. Example: --format json");
                proof {
                    assert(out@ =~= spec_usage_message(*self));
                }
                out
            },
            UsageError::ConflictingFlags { a, b, hint } => {
                let mut out = String::from_str("UsageError: flags ");
                out.append(a.as_str());
                out.append(" and ");
                out.append(b.as_str());
                out.append(" cannot be used together. ");
                out.append(hint.as_str());
                proof {
                    assert(out@ =~= spec_usage_message(*self));
                }
                out
            },
            UsageError::MissingArgument { name, example } => {
                let mut out = String::from_str("UsageError: missing argument ");
                out.append(name.as_str());
                out.append(". Example: ");
                out.append(example.as_str());
                proof {
                    assert(out@ =~= spec_usage_message(*self));
                }
                out
            },
            UsageError::InvalidPathSyntax { input, example } => {
                let mut out = String::from_str("UsageError: invalid key-path syntax: '");
                out.append(input.as_str());
                out.append("'. Example: ");
                out.append(example.as_str());
                proof {
                    assert(out@ =~= spec_usage_message(*self));
                }
                out
            },
        }
    }
}

} // verus!
