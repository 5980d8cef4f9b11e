use vstd::prelude::*;
use crate::kinds::TypeKind;

verus! {

// ---------------------------------------------------------------------------
// JSON backend: a plain value tree.
//
// Numbers keep the distinction that the source syntax had: `Int` for values
// that fit a signed 64-bit integer, `Uint` for larger non-negative ones, and
// `FloatLit` for everything else, carried as its literal text so that the
// tree itself stays in plain integers and strings.
// ---------------------------------------------------------------------------

pub enum JsonNode {
    Null,
    Bool(bool),
    Int(i64),
    Uint(u64),
    FloatLit(String),
    Str(String),
    Arr(Vec<JsonNode>),
    Obj(Vec<(String, JsonNode)>),
}

/// The mathematical shape of a JSON tree: what `JsonNode` is, with text as
/// `Seq<char>` and children as `Seq`.
pub enum JsonV {
    Null,
    Bool(bool),
    Int(int),
    Uint(int),
    FloatLit(Seq<char>),
    Str(Seq<char>),
    Arr(Seq<JsonV>),
    Obj(Seq<(Seq<char>, JsonV)>),
}

pub open spec fn json_view(n: JsonNode) -> JsonV
    decreases n,
{
    match n {
        JsonNode::Null => JsonV::Null,
        JsonNode::Bool(b) => JsonV::Bool(b),
        JsonNode::Int(i) => JsonV::Int(i as int),
        JsonNode::Uint(u) => JsonV::Uint(u as int),
        JsonNode::FloatLit(s) => JsonV::FloatLit(s@),
        JsonNode::Str(s) => JsonV::Str(s@),
        JsonNode::Arr(a) => JsonV::Arr(
            Seq::new(
                a@.len(),
                |i: int|
                    if 0 <= i < a@.len() {
                        json_view(a@[i])
                    } else {
                        JsonV::Null
                    },
            ),
        ),
        JsonNode::Obj(entries) => JsonV::Obj(
            Seq::new(
                entries@.len(),
                |i: int|
                    if 0 <= i < entries@.len() {
                        (entries@[i].0@, json_view(entries@[i].1))
                    } else {
                        (Seq::empty(), JsonV::Null)
                    },
            ),
        ),
    }
}

impl View for JsonNode {
    type V = JsonV;

    open spec fn view(&self) -> JsonV {
        json_view(*self)
    }
}

impl JsonV {
    /// Classification of a JSON node's shape.
    pub open spec fn kind(self) -> TypeKind {
        match self {
            JsonV::Null => TypeKind::Null,
            JsonV::Bool(_) => TypeKind::Bool,
            JsonV::Int(_) => TypeKind::Int,
            JsonV::Uint(_) => TypeKind::Uint,
            JsonV::FloatLit(_) => TypeKind::Float,
            JsonV::Str(_) => TypeKind::String,
            JsonV::Arr(_) => TypeKind::Array,
            JsonV::Obj(_) => TypeKind::Object,
        }
    }
}

// ---------------------------------------------------------------------------
// TOML backend: the structural skeleton of a format-preserving document.
//
// A document-level entry is a `TomlItem`: a plain value, a table written as
// `[name]`, or an array of tables written as repeated `[[name]]`.  A
// `TomlValue` is what can stand on the right of `=`: a scalar, an inline
// array, or an inline table.  The distinction matters for navigation: key
// lookup through a table uses table semantics, through an inline table uses
// inline-table semantics, and an element of an array of tables is a table,
// not a value.
// ---------------------------------------------------------------------------

pub enum TomlItem {
    /// A placeholder entry with no value; classifies as `Null`.
    Absent,
    Value(TomlValue),
    Table(Vec<(String, TomlItem)>),
    ArrayOfTables(Vec<Vec<(String, TomlItem)>>),
}

pub enum TomlValue {
    Bool(bool),
    Int(i64),
    FloatLit(String),
    Str(String),
    /// A datetime literal, kept as its text plus which parts it carries.
    Datetime { date: bool, time: bool, text: String },
    Arr(Vec<TomlValue>),
    Inline(Vec<(String, TomlValue)>),
}

pub enum TomlItemV {
    Absent,
    Value(TomlValueV),
    Table(Seq<(Seq<char>, TomlItemV)>),
    ArrayOfTables(Seq<Seq<(Seq<char>, TomlItemV)>>),
}

pub enum TomlValueV {
    Bool(bool),
    Int(int),
    FloatLit(Seq<char>),
    Str(Seq<char>),
    Datetime { date: bool, time: bool, text: Seq<char> },
    Arr(Seq<TomlValueV>),
    Inline(Seq<(Seq<char>, TomlValueV)>),
}

pub open spec fn toml_value_view(v: TomlValue) -> TomlValueV
    decreases v,
{
    match v {
        TomlValue::Bool(b) => TomlValueV::Bool(b),
        TomlValue::Int(i) => TomlValueV::Int(i as int),
        TomlValue::FloatLit(s) => TomlValueV::FloatLit(s@),
        TomlValue::Str(s) => TomlValueV::Str(s@),
        TomlValue::Datetime { date, time, text } => TomlValueV::Datetime {
            date,
            time,
            text: text@,
        },
        TomlValue::Arr(a) => TomlValueV::Arr(
            Seq::new(
                a@.len(),
                |i: int|
                    if 0 <= i < a@.len() {
                        toml_value_view(a@[i])
                    } else {
                        TomlValueV::Bool(false)
                    },
            ),
        ),
        TomlValue::Inline(entries) => TomlValueV::Inline(
            Seq::new(
                entries@.len(),
                |i: int|
                    if 0 <= i < entries@.len() {
                        (entries@[i].0@, toml_value_view(entries@[i].1))
                    } else {
                        (Seq::empty(), TomlValueV::Bool(false))
                    },
            ),
        ),
    }
}

pub open spec fn toml_item_view(item: TomlItem) -> TomlItemV
    decreases item,
{
    match item {
        TomlItem::Absent => TomlItemV::Absent,
        TomlItem::Value(v) => TomlItemV::Value(toml_value_view(v)),
        TomlItem::Table(entries) => TomlItemV::Table(
            Seq::new(
                entries@.len(),
                |i: int|
                    if 0 <= i < entries@.len() {
                        (entries@[i].0@, toml_item_view(entries@[i].1))
                    } else {
                        (Seq::empty(), TomlItemV::Absent)
                    },
            ),
        ),
        TomlItem::ArrayOfTables(tables) => TomlItemV::ArrayOfTables(
            Seq::new(
                tables@.len(),
                |i: int|
                    if 0 <= i < tables@.len() {
                        Seq::new(
                            tables@[i]@.len(),
                            |j: int|
                                if 0 <= j < tables@[i]@.len() {
                                    (tables@[i]@[j].0@, toml_item_view(tables@[i]@[j].1))
                                } else {
                                    (Seq::empty(), TomlItemV::Absent)
                                },
                        )
                    } else {
                        Seq::empty()
                    },
            ),
        ),
    }
}

impl View for TomlItem {
    type V = TomlItemV;

    open spec fn view(&self) -> TomlItemV {
        toml_item_view(*self)
    }
}

impl View for TomlValue {
    type V = TomlValueV;

    open spec fn view(&self) -> TomlValueV {
        toml_value_view(*self)
    }
}

impl TomlValueV {
    /// Classification of a TOML value's shape.  A datetime literal counts
    /// as `DateTime`, `Date` or `Time` depending on which parts it carries.
    pub open spec fn kind(self) -> TypeKind {
        match self {
            TomlValueV::Bool(_) => TypeKind::Bool,
            TomlValueV::Int(_) => TypeKind::Int,
            TomlValueV::FloatLit(_) => TypeKind::Float,
            TomlValueV::Str(_) => TypeKind::String,
            TomlValueV::Datetime { date, time, .. } => if date && time {
                TypeKind::DateTime
            } else if date {
                TypeKind::Date
            } else {
                TypeKind::Time
            },
            TomlValueV::Arr(_) => TypeKind::Array,
            TomlValueV::Inline(_) => TypeKind::Object,
        }
    }
}

impl TomlItemV {
    /// Classification of a TOML document entry's shape.
    pub open spec fn kind(self) -> TypeKind {
        match self {
            TomlItemV::Absent => TypeKind::Null,
            TomlItemV::Value(v) => v.kind(),
            TomlItemV::Table(_) => TypeKind::Object,
            TomlItemV::ArrayOfTables(_) => TypeKind::Array,
        }
    }
}

impl TypeKind {
    /// Classifies a JSON node.
    pub fn from_json(v: &JsonNode) -> (r: TypeKind)
        ensures
            r == v@.kind(),
    {
        match v {
            JsonNode::Null => TypeKind::Null,
            JsonNode::Bool(_) => TypeKind::Bool,
            JsonNode::Int(_) => TypeKind::Int,
            JsonNode::Uint(_) => TypeKind::Uint,
            JsonNode::FloatLit(_) => TypeKind::Float,
            JsonNode::Str(_) => TypeKind::String,
            JsonNode::Arr(_) => TypeKind::Array,
            JsonNode::Obj(_) => TypeKind::Object,
        }
    }

    /// Classifies a TOML document entry.
    pub fn from_toml_item(item: &TomlItem) -> (r: TypeKind)
        ensures
            r == item@.kind(),
    {
        match item {
            TomlItem::Absent => TypeKind::Null,
            TomlItem::Value(v) => TypeKind::from_toml_value(v),
            TomlItem::Table(_) => TypeKind::Object,
            TomlItem::ArrayOfTables(_) => TypeKind::Array,
        }
    }

    /// Classifies a TOML value.
    pub fn from_toml_value(v: &TomlValue) -> (r: TypeKind)
        ensures
            r == v@.kind(),
    {
        match v {
            TomlValue::Bool(_) => TypeKind::Bool,
            TomlValue::Int(_) => TypeKind::Int,
            TomlValue::FloatLit(_) => TypeKind::Float,
            TomlValue::Str(_) => TypeKind::String,
            TomlValue::Datetime { date, time, .. } => if *date && *time {
                TypeKind::DateTime
            } else if *date {
                TypeKind::Date
            } else {
                TypeKind::Time
            },
            TomlValue::Arr(_) => TypeKind::Array,
            TomlValue::Inline(_) => TypeKind::Object,
        }
    }
}

} // verus!
