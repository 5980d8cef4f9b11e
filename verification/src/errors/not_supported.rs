use vstd::prelude::*;

verus! {

/// Requests that are understood but deliberately not honoured; exit code 6.
pub enum NotSupportedError {
    Format { format: String, op: String, hint: String },
    Command { cmd: String, hint: String },
    Flag { option: String, hint: String },
    Feature { feature: String, hint: String },
    Platform { platform: String, what: String, hint: String },
    Version { component: String, found: String, required: String, hint: String },
    Combination { what: String, hint: String },
}

impl NotSupportedError {
    pub fn format(format: String, op: String, hint: String) -> (r: NotSupportedError)
        ensures
            r == (NotSupportedError::Format { format, op, hint }),
    {
        NotSupportedError::Format { format, op, hint }
    }

    pub fn command(cmd: String, hint: String) -> (r: NotSupportedError)
        ensures
            r == (NotSupportedError::Command { cmd, hint }),
    {
        NotSupportedError::Command { cmd, hint }
    }

    pub fn option(option: String, hint: String) -> (r: NotSupportedError)
        ensures
            r == (NotSupportedError::Flag { option, hint }),
    {
        NotSupportedError::Flag { option, hint }
    }

    pub fn feature(feature: String, hint: String) -> (r: NotSupportedError)
        ensures
            r == (NotSupportedError::Feature { feature, hint }),
    {
        NotSupportedError::Feature { feature, hint }
    }

    pub fn platform(platform: String, what: String, hint: String) -> (r: NotSupportedError)
        ensures
            r == (NotSupportedError::Platform { platform, what, hint }),
    {
        NotSupportedError::Platform { platform, what, hint }
    }

    pub fn version(component: String, found: String, required: String, hint: String) -> (r:
        NotSupportedError)
        ensures
            r == (NotSupportedError::Version { component, found, required, hint }),
    {
        NotSupportedError::Version { component, found, required, hint }
    }

    pub fn combination(what: String, hint: String) -> (r: NotSupportedError)
        ensures
            r == (NotSupportedError::Combination { what, hint }),
    {
        NotSupportedError::Combination { what, hint }
    }

    /// True when the unsupported state could be resolved by changing the
    /// environment rather than the request itself.
    pub fn is_potentially_transient(&self) -> (r: bool)
        ensures
            r == (self is Version || self is Platform),
    {
        match self {
            NotSupportedError::Version { .. } => true,
            NotSupportedError::Platform { .. } => true,
            _ => false,
        }
    }
}

} // verus!

verus! {

/// The one-line message of an unsupported request.
pub open spec fn spec_not_supported_message(e: NotSupportedError) -> Seq<char> {
    match e {
        NotSupportedError::Format { format, op, hint } => "Not supported for format "@ + format@
            + ": "@ + op@ + ". "@ + hint@,
        NotSupportedError::Command { cmd, hint } => "Command not supported: "@ + cmd@ + ". "@
            + hint@,
        NotSupportedError::Flag { option, hint } => "Option not supported: "@ + option@ + ". "@
            + hint@,
        NotSupportedError::Feature { feature, hint } => "Feature not supported: "@ + feature@
            + ". "@ + hint@,
        NotSupportedError::Platform { platform, what, hint } => "Platform not supported: "@
            + platform@ + " for "@ + what@ + ". "@ + hint@,
        NotSupportedError::Version { component, found, required, hint } => component@
            + " version not supported: found "@ + found@ + ", requires "@ + required@ + ". "@
            + hint@,
        NotSupportedError::Combination { what, hint } => "This combination is not supported: "@
            + what@ + ". "@ + hint@,
    }
}

impl NotSupportedError {
    /// Renders the failure on one line, exactly as the message model
    /// states it.
    pub fn message(&self) -> (r: String)
        ensures
            r@ == spec_not_supported_message(*self),
    {
        match self {
            NotSupportedError::Format { format, op, hint } => {
                let mut out = String::from_str("Not supported for format ");
                out.append(format.as_str());
                out.append(": ");
                out.append(op.as_str());
                out.append(". ");
                out.append(hint.as_str());
                proof {
                    assert(out@ =~= spec_not_supported_message(*self));
                }
                out
            },
            NotSupportedError::Command { cmd, hint } => {
                let mut out = String::from_str("Command not supported: ");
                out.append(cmd.as_str());
                out.append(". ");
                out.append(hint.as_str());
                proof {
                    assert(out@ =~= spec_not_supported_message(*self));
                }
                out
            },
            NotSupportedError::Flag { option, hint } => {
                let mut out = String::from_str("Option not supported: ");
                out.append(option.as_str());
                out.append(". ");
                out.append(hint.as_str());
                proof {
                    assert(out@ =~= spec_not_supported_message(*self));
                }
                out
            },
            NotSupportedError::Feature { feature, hint } => {
                let mut out = String::from_str("Feature not supported: ");
                out.append(feature.as_str());
                out.append(". ");
                out.append(hint.as_str());
                proof {
                    assert(out@ =~= spec_not_supported_message(*self));
                }
                out
            },
            NotSupportedError::Platform { platform, what, hint } => {
                let mut out = String::from_str("Platform not supported: ");
                out.append(platform.as_str());
                out.append(" for ");
                out.append(what.as_str());
                out.append(". ");
                out.append(hint.as_str());
                proof {
                    assert(out@ =~= spec_not_supported_message(*self));
                }
                out
            },
            NotSupportedError::Version { component, found, required, hint } => {
                let mut out = component.clone();
                out.append(" version not supported: found ");
                out.append(found.as_str());
                out.append(", requires ");
                out.append(required.as_str());
                out.append(". ");
                out.append(hint.as_str());
                proof {
                    assert(out@ =~= spec_not_supported_message(*self));
                }
                out
            },
            NotSupportedError::Combination { what, hint } => {
                let mut out = String::from_str("This combination is not supported: ");
                out.append(what.as_str());
                out.append(". ");
                out.append(hint.as_str());
                proof {
                    assert(out@ =~= spec_not_supported_message(*self));
                }
                out
            },
        }
    }
}

} // verus!
