use vstd::prelude::*;
use crate::kinds::TypeKind;
use crate::paths::{ValuePath, SegV};

verus! {

/// A mismatch between a value and the shape expected at its path; exit
/// code 5.
pub enum TypeError {
    TypeMismatch { path: ValuePath, expected: TypeKind, found: TypeKind },
    NumberOutOfRange { path: ValuePath, target: String, value: String, hint: String },
    InvalidEnumVariant { path: ValuePath, found: String, allowed: Vec<String> },
    InvalidPattern { path: ValuePath, expect_desc: String, found: String },
    ArrayElementTypeMismatch { path: ValuePath, index: usize, expected: TypeKind, found: TypeKind },
    ObjectFieldTypeMismatch { path: ValuePath, field: String, expected: TypeKind, found: TypeKind },
    NullNotAllowed { path: ValuePath },
}

impl TypeError {
    pub fn mismatch(path: ValuePath, expected: TypeKind, found: TypeKind) -> (r: TypeError)
        ensures
            r matches TypeError::TypeMismatch { path: p, expected: e, found: f } && p@ == path@
                && e == expected && f == found,
    {
        TypeError::TypeMismatch { path, expected, found }
    }

    pub fn out_of_range(path: ValuePath, target: String, value: String, hint: String) -> (r:
        TypeError)
        ensures
            r matches TypeError::NumberOutOfRange { path: p, target: t, value: v, hint: h } && p@
                == path@ && t@ == target@ && v@ == value@ && h@ == hint@,
    {
        TypeError::NumberOutOfRange { path, target, value, hint }
    }

    pub fn invalid_enum(path: ValuePath, found: String, allowed: Vec<String>) -> (r: TypeError)
        ensures
            r matches TypeError::InvalidEnumVariant { path: p, found: f, allowed: a } && p@
                == path@ && f@ == found@ && a@ == allowed@,
    {
        TypeError::InvalidEnumVariant { path, found, allowed }
    }

    pub fn pattern(path: ValuePath, expect_desc: String, found: String) -> (r: TypeError)
        ensures
            r matches TypeError::InvalidPattern { path: p, expect_desc: e, found: f } && p@
                == path@ && e@ == expect_desc@ && f@ == found@,
    {
        TypeError::InvalidPattern { path, expect_desc, found }
    }

    pub fn array_elem(path: ValuePath, index: usize, expected: TypeKind, found: TypeKind) -> (r:
        TypeError)
        ensures
            r matches TypeError::ArrayElementTypeMismatch {
                path: p,
                index: i,
                expected: e,
                found: f,
            } && p@ == path@ && i == index && e == expected && f == found,
    {
        TypeError::ArrayElementTypeMismatch { path, index, expected, found }
    }

    pub fn null_not_allowed(path: ValuePath) -> (r: TypeError)
        ensures
            r matches TypeError::NullNotAllowed { path: p } && p@ == path@,
    {
        TypeError::NullNotAllowed { path }
    }
}

} // verus!

verus! {

/// The one-line message of a type failure.
pub open spec fn spec_type_message(e: TypeError) -> Seq<char> {
    match e {
        TypeError::TypeMismatch { path, expected, found } => "Type mismatch at "@
            + crate::paths::spec_render_path(path@) + ": expected "@ + expected.spec_name()
            + ", found "@ + found.spec_name(),
        TypeError::NumberOutOfRange { path, target, value, hint } => "Number out of range at "@
            + crate::paths::spec_render_path(path@) + ": value "@ + value@ + " is not within "@
            + target@ + " bounds"@ + hint@,
        TypeError::InvalidEnumVariant { path, found, allowed } => "Invalid enum variant at "@
            + crate::paths::spec_render_path(path@) + ": found "@ + found@ + "; allowed: ["@
            + crate::strutil::spec_quoted_from(crate::strutil::strs_view(allowed@), 0) + "]"@,
        TypeError::InvalidPattern { path, expect_desc, found } => "Invalid pattern at "@
            + crate::paths::spec_render_path(path@) + ": expected "@ + expect_desc@ + ", found "@
            + found@,
        TypeError::ArrayElementTypeMismatch { path, index, expected, found } => (
        "Array element type mismatch at "@ + crate::paths::spec_render_path(path@) + "["@
            + crate::strutil::spec_dec(index as int) + "]: expected "@ + expected.spec_name()
            + ", found "@ + found.spec_name()),
        TypeError::ObjectFieldTypeMismatch { path, field, expected, found } => (
        "Field type mismatch at "@ + crate::paths::spec_render_path(path@) + ": field `"@ + field@
            + "` expected "@ + expected.spec_name() + ", found "@ + found.spec_name()),
        TypeError::NullNotAllowed { path } => "Null not allowed at "@
            + crate::paths::spec_render_path(path@),
    }
}

impl TypeError {
    /// Renders the failure on one line, exactly as the message model
    /// states it.
    pub fn message(&self) -> (r: String)
        ensures
            r@ == spec_type_message(*self),
    {
        match self {
            TypeError::TypeMismatch { path, expected, found } => {
                let mut out = String::from_str("Type mismatch at ");
                let rendered = path.render();
                out.append(rendered.as_str());
                out.append(": expected ");
                out.append(expected.name());
                out.append(", found ");
                out.append(found.name());
                proof {
                    assert(out@ =~= spec_type_message(*self));
                }
                out
            },
            TypeError::NumberOutOfRange { path, target, value, hint } => {
                let mut out = String::from_str("Number out of range at ");
                let rendered = path.render();
                out.append(rendered.as_str());
                out.append(": value ");
                out.append(value.as_str());
                out.append(" is not within ");
                out.append(target.as_str());
                out.append(" bounds");
                out.append(hint.as_str());
                proof {
                    assert(out@ =~= spec_type_message(*self));
                }
                out
            },
            TypeError::InvalidEnumVariant { path, found, allowed } => {
                let mut out = String::from_str("Invalid enum variant at ");
                let rendered = path.render();
                out.append(rendered.as_str());
                out.append(": found ");
                out.append(found.as_str());
                out.append("; allowed: [");
                crate::strutil::append_quoted_from(&mut out, allowed, 0);
                out.append("]");
                proof {
                    assert(out@ =~= spec_type_message(*self));
                }
                out
            },
            TypeError::InvalidPattern { path, expect_desc, found } => {
                let mut out = String::from_str("Invalid pattern at ");
                let rendered = path.render();
                out.append(rendered.as_str());
                out.append(": expected ");
                out.append(expect_desc.as_str());
                out.append(", found ");
                out.append(found.as_str());
                proof {
                    assert(out@ =~= spec_type_message(*self));
                }
                out
            },
            TypeError::ArrayElementTypeMismatch { path, index, expected, found } => {
                let mut out = String::from_str("Array element type mismatch at ");
                let rendered = path.render();
                out.append(rendered.as_str());
                out.append("[");
                crate::strutil::append_dec(&mut out, *index as u64);
                out.append("]: expected ");
                out.append(expected.name());
                out.append(", found ");
                out.append(found.name());
                proof {
                    assert(out@ =~= spec_type_message(*self));
                }
                out
            },
            TypeError::ObjectFieldTypeMismatch { path, field, expected, found } => {
                let mut out = String::from_str("Field type mismatch at ");
                let rendered = path.render();
                out.append(rendered.as_str());
                out.append(": field `");
                out.append(field.as_str());
                out.append("` expected ");
                out.append(expected.name());
                out.append(", found ");
                out.append(found.name());
                proof {
                    assert(out@ =~= spec_type_message(*self));
                }
                out
            },
            TypeError::NullNotAllowed { path } => {
                let mut out = String::from_str("Null not allowed at ");
                let rendered = path.render();
                out.append(rendered.as_str());
                proof {
                    assert(out@ =~= spec_type_message(*self));
                }
                out
            },
        }
    }
}

} // verus!
