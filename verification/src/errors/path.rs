use vstd::prelude::*;
use crate::kinds::TypeKind;
use crate::paths::{ValuePath, SegV};

verus! {

/// A failure while resolving a path through a document; exit code 4.
/// Every variant carries `prefix`: the part of the path that did resolve,
/// so a message can show exactly how far resolution got.
pub enum PathError {
    EmptyPath,
    NotAnObject { prefix: ValuePath, key: String, found: TypeKind },
    NotAnArray { prefix: ValuePath, index: usize, found: TypeKind },
    NotAContainer { prefix: ValuePath, found: TypeKind },
    KeyNotFound { prefix: ValuePath, key: String },
    IndexOutOfBounds { prefix: ValuePath, index: usize, len: usize },
    InvalidSegment { prefix: ValuePath, segment: String, reason: String },
    Unsupported { prefix: ValuePath, message: String },
}

/// The mathematical shape of a path failure.
pub enum PathErrV {
    EmptyPath,
    NotAnObject { prefix: Seq<SegV>, key: Seq<char>, found: TypeKind },
    NotAnArray { prefix: Seq<SegV>, index: int, found: TypeKind },
    NotAContainer { prefix: Seq<SegV>, found: TypeKind },
    KeyNotFound { prefix: Seq<SegV>, key: Seq<char> },
    IndexOutOfBounds { prefix: Seq<SegV>, index: int, len: int },
    InvalidSegment { prefix: Seq<SegV>, segment: Seq<char>, reason: Seq<char> },
    Unsupported { prefix: Seq<SegV>, message: Seq<char> },
}

impl View for PathError {
    type V = PathErrV;

    open spec fn view(&self) -> PathErrV {
        match self {
            PathError::EmptyPath => PathErrV::EmptyPath,
            PathError::NotAnObject { prefix, key, found } => PathErrV::NotAnObject {
                prefix: prefix@,
                key: key@,
                found: *found,
            },
            PathError::NotAnArray { prefix, index, found } => PathErrV::NotAnArray {
                prefix: prefix@,
                index: *index as int,
                found: *found,
            },
            PathError::NotAContainer { prefix, found } => PathErrV::NotAContainer {
                prefix: prefix@,
                found: *found,
            },
            PathError::KeyNotFound { prefix, key } => PathErrV::KeyNotFound {
                prefix: prefix@,
                key: key@,
            },
            PathError::IndexOutOfBounds { prefix, index, len } => PathErrV::IndexOutOfBounds {
                prefix: prefix@,
                index: *index as int,
                len: *len as int,
            },
            PathError::InvalidSegment { prefix, segment, reason } => PathErrV::InvalidSegment {
                prefix: prefix@,
                segment: segment@,
                reason: reason@,
            },
            PathError::Unsupported { prefix, message } => PathErrV::Unsupported {
                prefix: prefix@,
                message: message@,
            },
        }
    }
}

impl PathError {
    pub fn not_object(prefix: ValuePath, key: String, found: TypeKind) -> (r: PathError)
        ensures
            r@ == (PathErrV::NotAnObject { prefix: prefix@, key: key@, found }),
    {
        PathError::NotAnObject { prefix, key, found }
    }

    pub fn not_array(prefix: ValuePath, index: usize, found: TypeKind) -> (r: PathError)
        ensures
            r@ == (PathErrV::NotAnArray { prefix: prefix@, index: index as int, found }),
    {
        PathError::NotAnArray { prefix, index, found }
    }

    pub fn not_container(prefix: ValuePath, found: TypeKind) -> (r: PathError)
        ensures
            r@ == (PathErrV::NotAContainer { prefix: prefix@, found }),
    {
        PathError::NotAContainer { prefix, found }
    }

    pub fn key_not_found(prefix: ValuePath, key: String) -> (r: PathError)
        ensures
            r@ == (PathErrV::KeyNotFound { prefix: prefix@, key: key@ }),
    {
        PathError::KeyNotFound { prefix, key }
    }

    pub fn oob(prefix: ValuePath, index: usize, len: usize) -> (r: PathError)
        ensures
            r@ == (PathErrV::IndexOutOfBounds {
                prefix: prefix@,
                index: index as int,
                len: len as int,
            }),
    {
        PathError::IndexOutOfBounds { prefix, index, len }
    }

    pub fn invalid_seg(prefix: ValuePath, segment: String, reason: String) -> (r: PathError)
        ensures
            r@ == (PathErrV::InvalidSegment {
                prefix: prefix@,
                segment: segment@,
                reason: reason@,
            }),
    {
        PathError::InvalidSegment { prefix, segment, reason }
    }

    pub fn unsupported(prefix: ValuePath, message: String) -> (r: PathError)
        ensures
            r@ == (PathErrV::Unsupported { prefix: prefix@, message: message@ }),
    {
        PathError::Unsupported { prefix, message }
    }
}

} // verus!

verus! {

/// The one-line message of a path failure, built from the prefix that
/// did resolve and the facts of the failing segment.
pub open spec fn spec_path_message(e: PathErrV) -> Seq<char> {
    match e {
        PathErrV::EmptyPath => "Empty path is not allowed"@,
        PathErrV::NotAnObject { prefix, key, found } => "Not an object at "@
            + crate::paths::spec_render_path(prefix) + ": cannot access key `"@ + key + "` on "@
            + found.spec_name(),
        PathErrV::NotAnArray { prefix, index, found } => "Not an array at "@
            + crate::paths::spec_render_path(prefix) + ": cannot access index ["@
            + crate::strutil::spec_dec(index) + "] on "@ + found.spec_name(),
        PathErrV::NotAContainer { prefix, found } => "Not a container at "@
            + crate::paths::spec_render_path(prefix)
            + ": attempted to list children on a scalar "@ + found.spec_name(),
        PathErrV::KeyNotFound { prefix, key } => "Key not found at "@
            + crate::paths::spec_render_path(prefix) + ": missing key `"@ + key + "`"@,
        PathErrV::IndexOutOfBounds { prefix, index, len } => "Index out of bounds at "@
            + crate::paths::spec_render_path(prefix) + ": index "@ + crate::strutil::spec_dec(
            index,
        ) + " >= len "@ + crate::strutil::spec_dec(len),
        PathErrV::InvalidSegment { prefix, segment, reason } => "Invalid path segment at "@
            + crate::paths::spec_render_path(prefix) + ": segment `"@ + segment
            + "` is not valid ("@ + reason + ")"@,
        PathErrV::Unsupported { prefix, message } => "Unsupported path operation at "@
            + crate::paths::spec_render_path(prefix) + ": "@ + message,
    }
}

impl PathError {
    /// Renders the failure on one line, exactly as the message model
    /// states it.
    pub fn message(&self) -> (r: String)
        ensures
            r@ == spec_path_message(self@),
    {
        match self {
            PathError::EmptyPath => String::from_str("Empty path is not allowed"),
            PathError::NotAnObject { prefix, key, found } => {
                let mut out = String::from_str("Not an object at ");
                let rendered = prefix.render();
                out.append(rendered.as_str());
                out.append(": cannot access key `");
                out.append(key.as_str());
                out.append("` on ");
                out.append(found.name());
                proof {
                    assert(out@ =~= spec_path_message(self@));
                }
                out
            },
            PathError::NotAnArray { prefix, index, found } => {
                let mut out = String::from_str("Not an array at ");
                let rendered = prefix.render();
                out.append(rendered.as_str());
                out.append(": cannot access index [");
                crate::strutil::append_dec(&mut out, *index as u64);
                out.append("] on ");
                out.append(found.name());
                proof {
                    assert(out@ =~= spec_path_message(self@));
                }
                out
            },
            PathError::NotAContainer { prefix, found } => {
                let mut out = String::from_str("Not a container at ");
                let rendered = prefix.render();
                out.append(rendered.as_str());
                out.append(": attempted to list children on a scalar ");
                out.append(found.name());
                proof {
                    assert(out@ =~= spec_path_message(self@));
                }
                out
            },
            PathError::KeyNotFound { prefix, key } => {
                let mut out = String::from_str("Key not found at ");
                let rendered = prefix.render();
                out.append(rendered.as_str());
                out.append(": missing key `");
                out.append(key.as_str());
                out.append("`");
                proof {
                    assert(out@ =~= spec_path_message(self@));
                }
                out
            },
            PathError::IndexOutOfBounds { prefix, index, len } => {
                let mut out = String::from_str("Index out of bounds at ");
                let rendered = prefix.render();
                out.append(rendered.as_str());
                out.append(": index ");
                crate::strutil::append_dec(&mut out, *index as u64);
                out.append(" >= len ");
                crate::strutil::append_dec(&mut out, *len as u64);
                proof {
                    assert(out@ =~= spec_path_message(self@));
                }
                out
            },
            PathError::InvalidSegment { prefix, segment, reason } => {
                let mut out = String::from_str("Invalid path segment at ");
                let rendered = prefix.render();
                out.append(rendered.as_str());
                out.append(": segment `");
                out.append(segment.as_str());
                out.append("` is not valid (");
                out.append(reason.as_str());
                out.append(")");
                proof {
                    assert(out@ =~= spec_path_message(self@));
                }
                out
            },
            PathError::Unsupported { prefix, message } => {
                let mut out = String::from_str("Unsupported path operation at ");
                let rendered = prefix.render();
                out.append(rendered.as_str());
                out.append(": ");
                out.append(message.as_str());
                proof {
                    assert(out@ =~= spec_path_message(self@));
                }
                out
            },
        }
    }
}

} // verus!
