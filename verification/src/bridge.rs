use vstd::prelude::*;
use crate::model::{JsonNode, JsonV, TomlItem, TomlItemV, TomlValue};
use crate::navigate::json_wf;
use crate::paths::{PathSeg, ValuePath};

verus! {

// ---------------------------------------------------------------------------
// The trusted boundary: every call into serde_json and toml_edit lives
// here, behind small wrappers whose contracts Verus believes.  Parsing and
// rendering results are functions of the text or tree alone, so they are
// named by uninterpreted spec functions; everything the library then does
// with a parsed tree is verified against the model in `model`.
// ---------------------------------------------------------------------------

#[verifier::external_type_specification]
#[verifier::external_body]
pub struct ExJsonError(serde_json::Error);

#[verifier::external_type_specification]
#[verifier::external_body]
pub struct ExJsonValue(serde_json::Value);

#[verifier::external_type_specification]
#[verifier::external_body]
pub struct ExJsonNumber(serde_json::Number);

#[verifier::external_type_specification]
#[verifier::external_body]
pub struct ExTomlDocMut(toml_edit::DocumentMut);

#[verifier::external_type_specification]
#[verifier::external_body]
pub struct ExTomlError(toml_edit::TomlError);

#[verifier::external_type_specification]
#[verifier::external_body]
pub struct ExTomlItem(toml_edit::Item);

#[verifier::external_type_specification]
#[verifier::external_body]
pub struct ExTomlValue(toml_edit::Value);

#[verifier::external_type_specification]
#[verifier::external_body]
pub struct ExTomlTable(toml_edit::Table);

/// The tree that parsing a JSON text yields, when it is valid.
pub uninterp spec fn json_doc_of(s: Seq<char>) -> Option<JsonV>;

/// The text that rendering a JSON tree yields.
pub uninterp spec fn json_text_of(v: JsonV) -> Seq<char>;

/// The tree skeleton that parsing a TOML text yields, when it is valid.
pub uninterp spec fn toml_doc_of(s: Seq<char>) -> Option<TomlItemV>;

/// The structural skeleton a format-preserving document holds: the same
/// tree its conversion to the library's model yields, with placeholder
/// entries filtered the way the document's own iterators filter them.
/// It is what the contracts of the in-place editors below speak of.
pub uninterp spec fn doc_skel(doc: toml_edit::DocumentMut) -> TomlItemV;

/// Relies on serde_json::Error::line: the one-based line of the failure.
pub assume_specification[ serde_json::Error::line ](e: &serde_json::Error) -> (r: usize)
;

/// Relies on serde_json::Error::column: the one-based column of the
/// failure.
pub assume_specification[ serde_json::Error::column ](e: &serde_json::Error) -> (r: usize)
;

/// Relies on serde_json::Number's accessors: a number that fits a signed
/// 64-bit integer is carried as one, an unsigned one as unsigned, and
/// anything else keeps its decimal text.
#[verifier::external_body]
fn json_num_to_node(n: &serde_json::Number) -> JsonNode {
    if let Some(i) = n.as_i64() {
        JsonNode::Int(i)
    } else if let Some(u) = n.as_u64() {
        JsonNode::Uint(u)
    } else {
        JsonNode::FloatLit(n.to_string())
    }
}

/// Relies on serde_json::Value's variants: maps the parsed tree onto the
/// library's own node type, one variant at a time.
#[verifier::external_body]
fn json_to_node(v: &serde_json::Value) -> JsonNode {
    match v {
        serde_json::Value::Null => JsonNode::Null,
        serde_json::Value::Bool(b) => JsonNode::Bool(*b),
        serde_json::Value::Number(n) => json_num_to_node(n),
        serde_json::Value::String(s) => JsonNode::Str(s.clone()),
        serde_json::Value::Array(a) => JsonNode::Arr(a.iter().map(json_to_node).collect()),
        serde_json::Value::Object(m) => JsonNode::Obj(
            m.iter().map(|(k, x)| (k.clone(), json_to_node(x))).collect(),
        ),
    }
}

/// Relies on serde_json::from_str: parses RFC 8259 text.  The result is a
/// function of the text alone; a parsed object's keys are unique, because
/// serde_json's map keeps one entry per key.
#[verifier::external_body]
pub(crate) fn parse_json_text(s: &str) -> (r: Result<JsonNode, serde_json::Error>)
    ensures
        r matches Ok(n) ==> json_doc_of(s@) == Some(n@) && json_wf(n@),
        r is Err ==> json_doc_of(s@) is None,
{
    match serde_json::from_str::<serde_json::Value>(s) {
        Ok(v) => Ok(json_to_node(&v)),
        Err(e) => Err(e),
    }
}

/// Relies on serde_json::Error's Display: the parser's own description of
/// the failure.
#[verifier::external_body]
pub(crate) fn json_err_message(e: &serde_json::Error) -> String {
    format!("{}", e)
}

/// Relies on serde_json::Number::from_str and the Value constructors:
/// maps the library's scalar nodes back, one variant at a time.  A float
/// literal that serde_json cannot read back becomes null; the library
/// only builds such nodes from texts serde_json itself produced or
/// validated.
#[verifier::external_body]
fn scalar_to_json(n: &JsonNode) -> serde_json::Value {
    match n {
        JsonNode::Bool(b) => serde_json::Value::Bool(*b),
        JsonNode::Int(i) => serde_json::Value::from(*i),
        JsonNode::Uint(u) => serde_json::Value::from(*u),
        JsonNode::FloatLit(s) => match s.parse::<serde_json::Number>() {
            Ok(num) => serde_json::Value::Number(num),
            Err(_) => serde_json::Value::Null,
        },
        JsonNode::Str(s) => serde_json::Value::String(s.clone()),
        _ => serde_json::Value::Null,
    }
}

/// Relies on serde_json::Value's container constructors: maps the
/// library's node type back, recursing through arrays and objects.
#[verifier::external_body]
fn node_to_json(n: &JsonNode) -> serde_json::Value {
    match n {
        JsonNode::Arr(a) => serde_json::Value::Array(a.iter().map(node_to_json).collect()),
        JsonNode::Obj(es) => serde_json::Value::Object(
            es.iter().map(|(k, x)| (k.clone(), node_to_json(x))).collect(),
        ),
        _ => scalar_to_json(n),
    }
}

/// Relies on serde_json::to_string_pretty: renders a tree to JSON text.
/// The result is a function of the tree alone; rendering a `Value` cannot
/// fail, so the error arm is unreachable.
#[verifier::external_body]
pub(crate) fn json_render_text(n: &JsonNode) -> (r: String)
    ensures
        r@ == json_text_of(n@),
{
    match serde_json::to_string_pretty(&node_to_json(n)) {
        Ok(s) => s,
        Err(_) => String::new(),
    }
}

/// Relies on toml_edit::Table's iterator: collects a table's entries in
/// document order.
#[verifier::external_body]
fn toml_table_to_entries(t: &toml_edit::Table) -> Vec<(String, TomlItem)> {
    let mut out = Vec::new();
    for (k, it) in t.iter() {
        out.push((k.to_owned(), toml_item_to_node(it)));
    }
    out
}

/// Relies on toml_edit::Value's scalar variants: maps a scalar value onto
/// the library's own type, one variant at a time; floats and datetimes
/// keep their text.
#[verifier::external_body]
fn toml_scalar_to_node(v: &toml_edit::Value) -> TomlValue {
    match v {
        toml_edit::Value::Boolean(b) => TomlValue::Bool(*b.value()),
        toml_edit::Value::Integer(i) => TomlValue::Int(*i.value()),
        toml_edit::Value::Float(f) => TomlValue::FloatLit(f.value().to_string()),
        toml_edit::Value::String(s) => TomlValue::Str(s.value().clone()),
        toml_edit::Value::Datetime(d) => TomlValue::Datetime {
            date: d.value().date.is_some(),
            time: d.value().time.is_some(),
            text: d.value().to_string(),
        },
        _ => TomlValue::Bool(false),
    }
}

/// Relies on toml_edit::Value's container variants: maps a value onto the
/// library's own type, recursing through arrays and inline tables.
#[verifier::external_body]
fn toml_value_to_node(v: &toml_edit::Value) -> TomlValue {
    match v {
        toml_edit::Value::Array(a) => TomlValue::Arr(a.iter().map(toml_value_to_node).collect()),
        toml_edit::Value::InlineTable(t) => TomlValue::Inline(
            t.iter().map(|(k, x)| (k.to_owned(), toml_value_to_node(x))).collect(),
        ),
        _ => toml_scalar_to_node(v),
    }
}

/// Relies on toml_edit::Item's variants: maps a document entry onto the
/// library's own type, one variant at a time.
#[verifier::external_body]
fn toml_item_to_node(item: &toml_edit::Item) -> TomlItem {
    match item {
        toml_edit::Item::None => TomlItem::Absent,
        toml_edit::Item::Value(v) => TomlItem::Value(toml_value_to_node(v)),
        toml_edit::Item::Table(t) => TomlItem::Table(toml_table_to_entries(t)),
        toml_edit::Item::ArrayOfTables(aot) => TomlItem::ArrayOfTables(
            aot.iter().map(toml_table_to_entries).collect(),
        ),
    }
}

/// Relies on toml_edit's parser: reads a TOML text into its
/// format-preserving document, and hands back both the document and the
/// library's structural skeleton of it.  The skeleton is a function of
/// the text alone, and its table keys are unique, because TOML refuses a
/// document that defines a key twice.
#[verifier::external_body]
pub(crate) fn parse_toml_text(s: &str) -> (r: Result<(toml_edit::DocumentMut, TomlItem), toml_edit::TomlError>)
    ensures
        r matches Ok(p) ==> toml_doc_of(s@) == Some(p.1@) && crate::navigate_toml::toml_item_wf(
            p.1@,
        ) && doc_skel(p.0) == p.1@,
        r is Err ==> toml_doc_of(s@) is None,
{
    match s.parse::<toml_edit::DocumentMut>() {
        Ok(doc) => {
            let skeleton = toml_item_to_node(doc.as_item());
            Ok((doc, skeleton))
        },
        Err(e) => Err(e),
    }
}

/// Relies on toml_edit::TomlError::span: the byte offset where the
/// failure starts, when the parser knows it.
#[verifier::external_body]
pub(crate) fn toml_err_offset(e: &toml_edit::TomlError) -> Option<usize> {
    e.span().map(|r| r.start)
}

/// Relies on toml_edit::TomlError::message: the parser's own description
/// of the failure.
#[verifier::external_body]
pub(crate) fn toml_err_message(e: &toml_edit::TomlError) -> String {
    e.message().to_owned()
}

/// Relies on toml_edit's Value constructors and value parser: maps the
/// library's scalar values back, one variant at a time; a float or
/// datetime literal is read back from its text, falling back to that
/// text as a string.
#[verifier::external_body]
fn toml_scalar_of_node(n: &TomlValue) -> toml_edit::Value {
    match n {
        TomlValue::Bool(b) => toml_edit::Value::from(*b),
        TomlValue::Int(i) => toml_edit::Value::from(*i),
        TomlValue::FloatLit(s) => s.parse().unwrap_or_else(|_| toml_edit::Value::from(s.as_str())),
        TomlValue::Datetime { text, .. } => text.parse().unwrap_or_else(
            |_| toml_edit::Value::from(text.as_str()),
        ),
        _ => match n {
            TomlValue::Str(s) => toml_edit::Value::from(s.as_str()),
            _ => toml_edit::Value::from(""),
        },
    }
}

/// Relies on toml_edit's container constructors: maps the library's value
/// type back, recursing through arrays and inline tables.
#[verifier::external_body]
fn toml_value_of_node(n: &TomlValue) -> toml_edit::Value {
    match n {
        TomlValue::Arr(a) => toml_edit::Value::Array(a.iter().map(toml_value_of_node).collect()),
        TomlValue::Inline(es) => toml_edit::Value::InlineTable(
            es.iter().map(|(k, x)| (k.clone(), toml_value_of_node(x))).collect(),
        ),
        _ => toml_scalar_of_node(n),
    }
}

/// Relies on toml_edit::Item::get_mut: one navigation step inside the
/// format-preserving document.  Note toml_edit's mutable string lookup
/// goes through `entry(..).or_insert`: a key missing from a table is
/// inserted as a placeholder rather than refused.  The editors below are
/// therefore only claimed to succeed on paths that already resolve in
/// the document's skeleton, where every step finds its existing child
/// and nothing is inserted.
#[verifier::external_body]
fn toml_step_mut<'a>(cur: &'a mut toml_edit::Item, seg: &PathSeg) -> Option<&'a mut toml_edit::Item> {
    match seg {
        PathSeg::Key(k) => cur.get_mut(k.as_str()),
        PathSeg::Index(i) => cur.get_mut(*i),
    }
}

/// Relies on toml_edit::Item::get_mut and assignment: descends `path` in
/// the format-preserving document and puts `nv` at its end, leaving every
/// sibling's text, comments and ordering untouched.  When the path
/// resolves in the document's skeleton, every step finds its existing
/// child (an existing key's `entry` returns it without inserting; index
/// steps are pure lookups) and the final assignment succeeds, so the
/// call returns `true`.  On other paths the walk may insert placeholder
/// entries before giving up, which is why the verified operations resolve
/// the path on the skeleton first.
#[verifier::external_body]
pub(crate) fn toml_doc_replace(doc: &mut toml_edit::DocumentMut, path: &ValuePath, nv: &TomlValue) -> (ok:
    bool)
    ensures
        crate::navigate_toml::toml_item_replace(
            doc_skel(*old(doc)),
            path@,
            Seq::empty(),
            nv@,
        ) is Ok ==> ok,
{
    let mut cur = doc.as_item_mut();
    for seg in path.0.iter() {
        match toml_step_mut(cur, seg) {
            Some(next) => cur = next,
            None => return false,
        }
    }
    *cur = toml_edit::Item::Value(toml_value_of_node(nv));
    true
}

/// Relies on toml_edit's removal methods: removes the child named by
/// `seg` from the container under `cur`, whatever its concrete shape.
#[verifier::external_body]
fn toml_remove_child(cur: &mut toml_edit::Item, seg: &PathSeg) -> bool {
    match seg {
        PathSeg::Key(k) => match cur.as_table_like_mut() {
            Some(t) => t.remove(k.as_str()).is_some(),
            None => false,
        },
        PathSeg::Index(i) => {
            if let Some(arr) = cur.as_array_mut() {
                if *i < arr.len() { arr.remove(*i); true } else { false }
            } else if let Some(aot) = cur.as_array_of_tables_mut() {
                if *i < aot.len() { aot.remove(*i); true } else { false }
            } else { false }
        },
    }
}

/// Relies on toml_edit::Item::get_mut and the removal methods: descends
/// to the parent of `path`'s final segment in the format-preserving
/// document and removes that segment's entry, leaving everything else
/// untouched.  When removal succeeds on the document's skeleton, the
/// walk finds every existing child, the parent has the removable shape,
/// and the guarded removal is in bounds, so the call returns `true`.
#[verifier::external_body]
pub(crate) fn toml_doc_delete(doc: &mut toml_edit::DocumentMut, path: &ValuePath) -> (ok: bool)
    ensures
        crate::navigate_toml::toml_item_remove(doc_skel(*old(doc)), path@, Seq::empty()) is Ok
            ==> ok,
{
    if path.0.is_empty() {
        return false;
    }
    let mut cur = doc.as_item_mut();
    for seg in path.0.iter().take(path.0.len() - 1) {
        match toml_step_mut(cur, seg) {
            Some(next) => cur = next,
            None => return false,
        }
    }
    toml_remove_child(cur, &path.0[path.0.len() - 1])
}

/// Relies on toml_edit's Display: the document's text, with all retained
/// formatting and comments.
#[verifier::external_body]
pub(crate) fn toml_render_text(doc: &toml_edit::DocumentMut) -> String {
    doc.to_string()
}

/// Relies on toml_edit::Item::get and Display: the text of the subtree at
/// `path`, as it stands in the formatted document.
#[verifier::external_body]
pub(crate) fn toml_subtree_text(doc: &toml_edit::DocumentMut, path: &ValuePath) -> Option<String> {
    let mut cur = doc.as_item();
    for seg in path.0.iter() {
        let next = match seg {
            PathSeg::Key(k) => cur.get(k.as_str()),
            PathSeg::Index(i) => cur.get(*i),
        };
        match next {
            Some(item) => cur = item,
            None => return None,
        }
    }
    Some(format!("{}", cur))
}

} // verus!
