use vstd::prelude::*;

verus! {

/// The faults the underlying file operations can report, decoupled from
/// how std spells them.  `Other` carries the raw fault text.
pub enum IoFaultKind {
    NotFound,
    PermissionDenied,
    IsADirectory,
    WouldBlock,
    AlreadyExists,
    InvalidInput,
    Other(String),
}

pub enum IoFaultKindV {
    NotFound,
    PermissionDenied,
    IsADirectory,
    WouldBlock,
    AlreadyExists,
    InvalidInput,
    Other(Seq<char>),
}

impl View for IoFaultKind {
    type V = IoFaultKindV;

    open spec fn view(&self) -> IoFaultKindV {
        match self {
            IoFaultKind::NotFound => IoFaultKindV::NotFound,
            IoFaultKind::PermissionDenied => IoFaultKindV::PermissionDenied,
            IoFaultKind::IsADirectory => IoFaultKindV::IsADirectory,
            IoFaultKind::WouldBlock => IoFaultKindV::WouldBlock,
            IoFaultKind::AlreadyExists => IoFaultKindV::AlreadyExists,
            IoFaultKind::InvalidInput => IoFaultKindV::InvalidInput,
            IoFaultKind::Other(s) => IoFaultKindV::Other(s@),
        }
    }
}

/// A file-system failure; exit code 3.  Each variant carries the path(s)
/// involved, a short reason, and a remediation hint.
pub enum FileIoError {
    ReadFailed { path: String, reason: String, hint: String },
    WriteFailed { path: String, reason: String, hint: String },
    TempCreateFailed { path: String, reason: String, hint: String },
    AtomicReplaceFailed { temp_path: String, final_path: String, reason: String, hint: String },
}

/// The short human-readable reason for a fault.
pub open spec fn spec_io_reason(kind: IoFaultKindV) -> Seq<char> {
    match kind {
        IoFaultKindV::NotFound => "No such file or directory"@,
        IoFaultKindV::PermissionDenied => "Permission denied"@,
        IoFaultKindV::IsADirectory => "Path is a directory, not a file"@,
        IoFaultKindV::WouldBlock => "Resource temporarily unavailable"@,
        IoFaultKindV::AlreadyExists => "File already exists"@,
        IoFaultKindV::InvalidInput => "Invalid path or parameters"@,
        IoFaultKindV::Other(text) => text,
    }
}

/// The remediation hint for a fault; only the missing-file hint mentions
/// the path itself.
pub open spec fn spec_io_hint(kind: IoFaultKindV, path: Seq<char>) -> Seq<char> {
    match kind {
        IoFaultKindV::NotFound => "Check the path or create it first: "@ + path,
        IoFaultKindV::PermissionDenied => "Check file permissions or run with appropriate rights."@,
        IoFaultKindV::IsADirectory => "Use a regular file path for this operation."@,
        IoFaultKindV::WouldBlock => "Try again or ensure no other process is locking the file."@,
        IoFaultKindV::AlreadyExists => "Remove existing temp file or choose a different output path."@,
        IoFaultKindV::InvalidInput => "Verify the path string and encoding."@,
        IoFaultKindV::Other(_) => "Re-run with --debug for more details."@,
    }
}

/// One pure mapping from fault kind to `(reason, hint)`, so the wording is
/// consistent wherever a fault is reported.
pub fn io_reason_and_hint(kind: IoFaultKind, path: &str) -> (r: (String, String))
    ensures
        r.0@ == spec_io_reason(kind@),
        r.1@ == spec_io_hint(kind@, path@),
{
    match kind {
        IoFaultKind::NotFound => {
            let mut hint = String::from_str("Check the path or create it first: ");
            hint.append(path);
            (String::from_str("No such file or directory"), hint)
        },
        IoFaultKind::PermissionDenied => (
            String::from_str("Permission denied"),
            String::from_str("Check file permissions or run with appropriate rights."),
        ),
        IoFaultKind::IsADirectory => (
            String::from_str("Path is a directory, not a file"),
            String::from_str("Use a regular file path for this operation."),
        ),
        IoFaultKind::WouldBlock => (
            String::from_str("Resource temporarily unavailable"),
            String::from_str("Try again or ensure no other process is locking the file."),
        ),
        IoFaultKind::AlreadyExists => (
            String::from_str("File already exists"),
            String::from_str("Remove existing temp file or choose a different output path."),
        ),
        IoFaultKind::InvalidInput => (
            String::from_str("Invalid path or parameters"),
            String::from_str("Verify the path string and encoding."),
        ),
        IoFaultKind::Other(text) => (
            text,
            String::from_str("Re-run with --debug for more details."),
        ),
    }
}

impl FileIoError {
    /// A failure while reading the config file.
    pub fn read_failed(path: &str, kind: IoFaultKind) -> (r: FileIoError)
        ensures
            r matches FileIoError::ReadFailed { path: p, reason, hint } && p@ == path@ && reason@
                == spec_io_reason(kind@) && hint@ == spec_io_hint(kind@, path@),
    {
        let (reason, hint) = io_reason_and_hint(kind, path);
        FileIoError::ReadFailed { path: path.to_owned(), reason, hint }
    }

    /// A failure while writing the new contents.
    pub fn write_failed(path: &str, kind: IoFaultKind) -> (r: FileIoError)
        ensures
            r matches FileIoError::WriteFailed { path: p, reason, hint } && p@ == path@ && reason@
                == spec_io_reason(kind@) && hint@ == spec_io_hint(kind@, path@),
    {
        let (reason, hint) = io_reason_and_hint(kind, path);
        FileIoError::WriteFailed { path: path.to_owned(), reason, hint }
    }

    /// A failure while creating the adjacent temporary file.
    pub fn temp_create_failed(path: &str, kind: IoFaultKind) -> (r: FileIoError)
        ensures
            r matches FileIoError::TempCreateFailed { path: p, reason, hint } && p@ == path@
                && reason@ == spec_io_reason(kind@) && hint@ == spec_io_hint(kind@, path@),
    {
        let (reason, hint) = io_reason_and_hint(kind, path);
        FileIoError::TempCreateFailed { path: path.to_owned(), reason, hint }
    }

    /// A failure while renaming the temporary file over the target.
    pub fn atomic_replace_failed(temp_path: &str, final_path: &str, kind: IoFaultKind) -> (r:
        FileIoError)
        ensures
            r matches FileIoError::AtomicReplaceFailed { temp_path: t, final_path: f, reason, hint }
                && t@ == temp_path@ && f@ == final_path@ && reason@ == spec_io_reason(kind@)
                && hint@ == spec_io_hint(kind@, final_path@),
    {
        let (reason, hint) = io_reason_and_hint(kind, final_path);
        FileIoError::AtomicReplaceFailed {
            temp_path: temp_path.to_owned(),
            final_path: final_path.to_owned(),
            reason,
            hint,
        }
    }
}

} // verus!

verus! {

/// The one-line message of a file-system failure.
pub open spec fn spec_file_io_message(e: FileIoError) -> Seq<char> {
    match e {
        FileIoError::ReadFailed { path, reason, hint } => "FileIoError: could not read "@ + path@
            + ": "@ + reason@ + ". "@ + hint@,
        FileIoError::WriteFailed { path, reason, hint } => "FileIoError: could not write "@
            + path@ + ": "@ + reason@ + ". "@ + hint@,
        FileIoError::TempCreateFailed { path, reason, hint } => (
        "FileIoError: could not create temp file near "@ + path@ + ": "@ + reason@ + ". "@
            + hint@),
        FileIoError::AtomicReplaceFailed { temp_path, final_path, reason, hint } => (
        "FileIoError: could not atomically replace "@ + final_path@ + " (from "@ + temp_path@
            + "): "@ + reason@ + ". "@ + hint@),
    }
}

impl FileIoError {
    /// Renders the failure on one line, exactly as the message model
    /// states it.
    pub fn message(&self) -> (r: String)
        ensures
            r@ == spec_file_io_message(*self),
    {
        match self {
            FileIoError::ReadFailed { path, reason, hint } => {
                let mut out = String::from_str("FileIoError: could not read ");
                out.append(path.as_str());
                out.append(": ");
                out.append(reason.as_str());
                out.append(". ");
                out.append(hint.as_str());
                proof {
                    assert(out@ =~= spec_file_io_message(*self));
                }
                out
            },
            FileIoError::WriteFailed { path, reason, hint } => {
                let mut out = String::from_str("FileIoError: could not write ");
                out.append(path.as_str());
                out.append(": ");
                out.append(reason.as_str());
                out.append(". ");
                out.append(hint.as_str());
                proof {
                    assert(out@ =~= spec_file_io_message(*self));
                }
                out
            },
            FileIoError::TempCreateFailed { path, reason, hint } => {
                let mut out = String::from_str("FileIoError: could not create temp file near ");
                out.append(path.as_str());
                out.append(": ");
                out.append(reason.as_str());
                out.append(". ");
                out.append(hint.as_str());
                proof {
                    assert(out@ =~= spec_file_io_message(*self));
                }
                out
            },
            FileIoError::AtomicReplaceFailed { temp_path, final_path, reason, hint } => {
                let mut out = String::from_str("FileIoError: could not atomically replace ");
                out.append(final_path.as_str());
                out.append(" (from ");
                out.append(temp_path.as_str());
                out.append("): ");
                out.append(reason.as_str());
                out.append(". ");
                out.append(hint.as_str());
                proof {
                    assert(out@ =~= spec_file_io_message(*self));
                }
                out
            },
        }
    }
}

} // verus!
