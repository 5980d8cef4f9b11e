use vstd::prelude::*;

verus! {

/// Backend-agnostic classification of a configuration node's shape.
///
/// A JSON object and a TOML table (or inline table) both classify as
/// `Object`; a JSON array and a TOML array (or array of tables) both
/// classify as `Array`.  The `Date`, `Time` and `DateTime` kinds arise
/// only from TOML datetime literals, depending on which parts the
/// literal carries.
#[derive(Clone, Copy, Debug, PartialEq, Eq, Structural)]
pub enum TypeKind {
    Null,
    Bool,
    Int,
    Uint,
    Float,
    String,
    Array,
    Object,
    Date,
    Time,
    DateTime,
}

impl TypeKind {
    /// The short lower-case name of the kind, used in error messages.
    pub open spec fn spec_name(self) -> Seq<char> {
        match self {
            TypeKind::Null => "null"@,
            TypeKind::Bool => "bool"@,
            TypeKind::Int => "int"@,
            TypeKind::Uint => "uint"@,
            TypeKind::Float => "float"@,
            TypeKind::String => "string"@,
            TypeKind::Array => "array"@,
            TypeKind::Object => "object"@,
            TypeKind::Date => "date"@,
            TypeKind::Time => "time"@,
            TypeKind::DateTime => "datetime"@,
        }
    }

    /// Renders the kind as its short lower-case name.
    pub fn name(&self) -> (r: &'static str)
        ensures
            r@ == self.spec_name(),
    {
        match self {
            TypeKind::Null => "null",
            TypeKind::Bool => "bool",
            TypeKind::Int => "int",
            TypeKind::Uint => "uint",
            TypeKind::Float => "float",
            TypeKind::String => "string",
            TypeKind::Array => "array",
            TypeKind::Object => "object",
            TypeKind::Date => "date",
            TypeKind::Time => "time",
            TypeKind::DateTime => "datetime",
        }
    }

    /// True for the kinds whose nodes have children: arrays and objects.
    pub open spec fn spec_is_container(self) -> bool {
        self == TypeKind::Array || self == TypeKind::Object
    }

    /// True for the kinds whose nodes have children: arrays and objects.
    pub fn is_container(&self) -> (r: bool)
        ensures
            r == self.spec_is_container(),
    {
        match self {
            TypeKind::Array => true,
            TypeKind::Object => true,
            _ => false,
        }
    }
}

} // verus!
