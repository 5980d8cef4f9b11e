use vstd::prelude::*;
use crate::bridge::{json_doc_of, json_text_of, toml_doc_of, parse_json_text, parse_toml_text,
    json_render_text, json_err_message, toml_err_offset, toml_err_message, toml_doc_replace,
    toml_doc_delete, toml_render_text, toml_subtree_text};
use crate::errors::ConfigError;
use crate::errors::parse::{ConfigFormat, ParseError, SourceLocation, offset_to_line_col,
    extract_snippet, spec_snippet, spec_offset_line_col};
use vstd::string::StringSliceAdditionalSpecFns;
use crate::errors::path::{PathError, PathErrV};
use crate::errors::usage::UsageError;
use crate::errors::value_type::TypeError;
use crate::errors::not_supported::NotSupportedError;
use crate::kinds::TypeKind;
use crate::model::{JsonNode, JsonV, TomlItem, TomlValueV};
use crate::navigate::{json_resolve, json_replace, json_delete, spec_json_list, json_list,
    get_json_at_path, json_set_at, json_delete_at, lemma_replace_resolve, segs_view};
use crate::navigate_toml::{TomlAt, TomlAtV, toml_resolve, toml_delete, get_toml_at_path,
    toml_set_item, toml_delete_item, toml_item_replace};
use crate::paths::{PathSeg, SegV, ValuePath};
use crate::strutil::spec_dec;
use crate::values::{ConfigValue, render_i64, spec_dec_signed};

verus! {

// ---------------------------------------------------------------------------
// Choosing the format.
// ---------------------------------------------------------------------------

/// The format a file name's extension announces, if any.
pub open spec fn spec_ext_format(s: Seq<char>) -> Option<ConfigFormat> {
    if s.len() >= 5 && s.subrange(s.len() - 5, s.len() as int) == ".json"@ {
        Some(ConfigFormat::Json)
    } else if s.len() >= 5 && s.subrange(s.len() - 5, s.len() as int) == ".toml"@ {
        Some(ConfigFormat::Toml)
    } else {
        None
    }
}

/// Picks the document format: the explicit choice when it is given, else
/// the file extension.  An explicit choice that contradicts a recognised
/// extension is a conflict; neither source at all is a missing flag.
pub fn choose_format(file: &str, explicit: Option<ConfigFormat>) -> (r: Result<
    ConfigFormat,
    UsageError,
>)
    ensures
        match r {
            Ok(f) => match explicit {
                Some(e) => f == e && (spec_ext_format(file@) is Some ==> spec_ext_format(file@)
                    == Some(e)),
                None => spec_ext_format(file@) == Some(f),
            },
            Err(e) => match explicit {
                Some(x) => e is ConflictingFlags && spec_ext_format(file@) is Some
                    && spec_ext_format(file@) != Some(x),
                None => e is MissingFlag && spec_ext_format(file@) is None,
            },
        },
{
    let len = file.unicode_len();
    let ext = if len >= 5 {
        let tail = file.substring_char(len - 5, len);
        if crate::strutil::str_eq_str(tail, ".json") {
            Some(ConfigFormat::Json)
        } else if crate::strutil::str_eq_str(tail, ".toml") {
            Some(ConfigFormat::Toml)
        } else {
            None
        }
    } else {
        None
    };
    match (explicit, ext) {
        (Some(e), Some(x)) => {
            if e == x {
                Ok(e)
            } else {
                Err(
                    UsageError::ConflictingFlags {
                        a: String::from_str("--format"),
                        b: String::from_str("the file extension"),
                        hint: String::from_str(
                            "Pass a --format that matches the file, or rename the file.",
                        ),
                    },
                )
            }
        },
        (Some(e), None) => Ok(e),
        (None, Some(x)) => Ok(x),
        (None, None) => Err(
            UsageError::MissingFlag {
                flag: String::from_str("--format <json|toml>"),
                hint: String::from_str("Use --format when the file extension is not json or toml."),
            },
        ),
    }
}

// ---------------------------------------------------------------------------
// Loading a document.
// ---------------------------------------------------------------------------

/// Parses a JSON text into the library's tree, or a parse error carrying
/// the parser's reported location and the caret snippet drawn at it.
pub fn load_json(text: &str) -> (r: Result<JsonNode, ParseError>)
    ensures
        match r {
            Ok(n) => json_doc_of(text@) == Some(n@) && crate::navigate::json_wf(n@),
            Err(e) => json_doc_of(text@) is None && (e matches ParseError::ForeignParseError {
                format,
                loc,
                snippet,
                ..
            } && format == ConfigFormat::Json && loc.file is None && snippet@ == spec_snippet(
                text@,
                loc.line as int,
                loc.column as int,
            )),
        },
{
    match parse_json_text(text) {
        Ok(n) => Ok(n),
        Err(e) => {
            let line = serde_json::Error::line(&e);
            let column = serde_json::Error::column(&e);
            let snippet = extract_snippet(text, line, column);
            Err(
                ParseError::ForeignParseError {
                    format: ConfigFormat::Json,
                    loc: SourceLocation::new(line, column),
                    message: json_err_message(&e),
                    snippet,
                },
            )
        },
    }
}

/// Parses a TOML text into its format-preserving document plus the
/// library's structural skeleton, or a parse error locating the failure:
/// the line and column come from the byte offset the parser reports
/// (the start of the text when it reports none), and the caret snippet
/// is drawn at that place.
pub fn load_toml(text: &str) -> (r: Result<(toml_edit::DocumentMut, TomlItem), ParseError>)
    requires
        text.spec_bytes().len() < usize::MAX,
    ensures
        match r {
            Ok(p) => toml_doc_of(text@) == Some(p.1@) && crate::navigate_toml::toml_item_wf(p.1@)
                && crate::bridge::doc_skel(p.0) == p.1@,
            Err(e) => toml_doc_of(text@) is None && (e matches ParseError::ForeignParseError {
                format,
                loc,
                snippet,
                ..
            } && format == ConfigFormat::Toml && loc.file is None && snippet@ == spec_snippet(
                text@,
                loc.line as int,
                loc.column as int,
            ) && (exists|off: int|
                #![auto]
                0 <= off && loc.line as int == spec_offset_line_col(text.spec_bytes(), off).0
                    && loc.column as int == spec_offset_line_col(text.spec_bytes(), off).1)),
        },
{
    match parse_toml_text(text) {
        Ok(p) => Ok(p),
        Err(e) => {
            let (line, column) = match toml_err_offset(&e) {
                Some(off) => {
                    let lc = offset_to_line_col(text, off);
                    proof {
                        assert(lc.0 as int == spec_offset_line_col(
                            text.spec_bytes(),
                            off as int,
                        ).0 && lc.1 as int == spec_offset_line_col(text.spec_bytes(), off as int).1);
                    }
                    lc
                },
                None => {
                    proof {
                        assert(1int == spec_offset_line_col(text.spec_bytes(), 0).0 && 1int
                            == spec_offset_line_col(text.spec_bytes(), 0).1);
                    }
                    (1, 1)
                },
            };
            let snippet = extract_snippet(text, line, column);
            Err(
                ParseError::ForeignParseError {
                    format: ConfigFormat::Toml,
                    loc: SourceLocation::new(line, column),
                    message: toml_err_message(&e),
                    snippet,
                },
            )
        },
    }
}

// ---------------------------------------------------------------------------
// Display text.
// ---------------------------------------------------------------------------

/// The display text of a JSON node: scalars print bare, containers print
/// as rendered JSON.
pub open spec fn spec_json_display(v: JsonV) -> Seq<char> {
    match v {
        JsonV::Null => "null"@,
        JsonV::Bool(b) => if b {
            "true"@
        } else {
            "false"@
        },
        JsonV::Int(n) => spec_dec_signed(n),
        JsonV::Uint(n) => spec_dec(n),
        JsonV::FloatLit(s) => s,
        JsonV::Str(s) => s,
        JsonV::Arr(_) => json_text_of(v),
        JsonV::Obj(_) => json_text_of(v),
    }
}

/// Renders a JSON node to its display text.
pub fn json_display(n: &JsonNode) -> (r: String)
    ensures
        r@ == spec_json_display(n@),
{
    match n {
        JsonNode::Null => String::from_str("null"),
        JsonNode::Bool(b) => {
            if *b {
                String::from_str("true")
            } else {
                String::from_str("false")
            }
        },
        JsonNode::Int(i) => render_i64(*i),
        JsonNode::Uint(u) => crate::strutil::render_dec(*u),
        JsonNode::FloatLit(s) => s.clone(),
        JsonNode::Str(s) => s.clone(),
        JsonNode::Arr(_) => json_render_text(n),
        JsonNode::Obj(_) => json_render_text(n),
    }
}

/// The display text of a TOML scalar value; containers have none here.
pub open spec fn spec_toml_scalar_display(v: TomlValueV) -> Option<Seq<char>> {
    match v {
        TomlValueV::Bool(b) => Some(
            if b {
                "true"@
            } else {
                "false"@
            },
        ),
        TomlValueV::Int(n) => Some(spec_dec_signed(n)),
        TomlValueV::FloatLit(s) => Some(s),
        TomlValueV::Str(s) => Some(s),
        TomlValueV::Datetime { text, .. } => Some(text),
        TomlValueV::Arr(_) => None,
        TomlValueV::Inline(_) => None,
    }
}

/// The scalar display text under a cursor, when the cursor sits on a
/// scalar.
pub open spec fn spec_toml_at_display(at: TomlAtV) -> Option<Seq<char>> {
    match at {
        TomlAtV::Item(crate::model::TomlItemV::Value(v)) => spec_toml_scalar_display(v),
        TomlAtV::Value(v) => spec_toml_scalar_display(v),
        _ => None,
    }
}

/// Renders the scalar under a cursor, when there is one.
fn toml_at_scalar_display(at: &TomlAt) -> (r: Option<String>)
    ensures
        match r {
            Some(s) => spec_toml_at_display(at@) == Some(s@),
            None => spec_toml_at_display(at@) is None,
        },
{
    match at.as_value() {
        Some(v) => match v {
            crate::model::TomlValue::Bool(b) => Some(
                if *b {
                    String::from_str("true")
                } else {
                    String::from_str("false")
                },
            ),
            crate::model::TomlValue::Int(i) => Some(render_i64(*i)),
            crate::model::TomlValue::FloatLit(s) => Some(s.clone()),
            crate::model::TomlValue::Str(s) => Some(s.clone()),
            crate::model::TomlValue::Datetime { text, .. } => Some(text.clone()),
            crate::model::TomlValue::Arr(_) => None,
            crate::model::TomlValue::Inline(_) => None,
        },
        None => None,
    }
}

// ---------------------------------------------------------------------------
// The operations, document in hand.
// ---------------------------------------------------------------------------

/// Builds the usage error for an unparsable path string.
pub(crate) fn invalid_path_error(input: &str) -> (r: ConfigError)
    ensures
        r matches ConfigError::Usage(u) && (u matches UsageError::InvalidPathSyntax {
            input: i,
            ..
        } && i@ == input@),
{
    ConfigError::Usage(
        UsageError::InvalidPathSyntax {
            input: input.to_owned(),
            example: String::from_str("network.timeout or servers[0].host"),
        },
    )
}

/// Reads the node at `path` in a JSON document and renders it.
pub fn read_json(root: &JsonNode, path: &ValuePath) -> (r: Result<String, ConfigError>)
    ensures
        match r {
            Ok(s) => json_resolve(root@, path@) matches Ok(node) && s@ == spec_json_display(node),
            Err(e) => e matches ConfigError::Path(p) && json_resolve(root@, path@) == Err::<
                JsonV,
                PathErrV,
            >(p@),
        },
{
    match get_json_at_path(root, path) {
        Ok(node) => Ok(json_display(node)),
        Err(e) => Err(ConfigError::Path(e)),
    }
}

/// Sets the node at `path` in a JSON document to the value inferred from
/// its literal text.  The existing node's kind and the new value's kind
/// must agree: a mismatch is a type error and leaves the tree unchanged,
/// a match replaces the node in place.  A coercion request is refused.
pub fn set_json(root: &mut JsonNode, path: &ValuePath, value: ConfigValue, coerce: bool) -> (r:
    Result<(), ConfigError>)
    ensures
        coerce ==> (r matches Err(ConfigError::NotSupported(_)) && final(root)@ == old(root)@),
        !coerce ==> match json_resolve(old(root)@, path@) {
            Err(pe) => r matches Err(ConfigError::Path(p)) && p@ == pe && final(root)@ == old(
                root,
            )@,
            Ok(node) => if node.kind() != value@.kind() {
                ({
                    &&& r matches Err(ce)
                    &&& ce matches ConfigError::Type(te)
                    &&& te matches TypeError::TypeMismatch { path: tp, expected, found }
                    &&& tp@ == path@
                    &&& expected == node.kind()
                    &&& found == value@.kind()
                    &&& final(root)@ == old(root)@
                })
            } else {
                r is Ok && json_replace(old(root)@, path@, value@.as_json()) == Ok::<
                    JsonV,
                    PathErrV,
                >(final(root)@)
            },
        },
{
    if coerce {
        return Err(
            ConfigError::NotSupported(
                NotSupportedError::Flag {
                    option: String::from_str("--coerce"),
                    hint: String::from_str("Coercion is not defined yet; set a matching type."),
                },
            ),
        );
    }
    let existing = match get_json_at_path(root, path) {
        Ok(node) => TypeKind::from_json(node),
        Err(e) => {
            return Err(ConfigError::Path(e));
        },
    };
    let wanted = value.kind();
    if existing != wanted {
        return Err(
            ConfigError::Type(TypeError::mismatch(path.duplicate(), existing, wanted)),
        );
    }
    let nv = value.to_json_node();
    proof {
        lemma_replace_resolve(old(root)@, path@, Seq::empty(), nv@);
    }
    match json_set_at(root, path, 0, ValuePath::new(), nv) {
        Ok(_) => {
            proof {
                assert(path@.skip(0) =~= path@);
            }
            Ok(())
        },
        Err(e) => {
            proof {
                assert(path@.skip(0) =~= path@);
            }
            Err(ConfigError::Path(e))
        },
    }
}

/// Deletes the node at `path` in a JSON document.  Deleting an absent key
/// or index is an error, never a silent no-op.
pub fn delete_json(root: &mut JsonNode, path: &ValuePath) -> (r: Result<(), ConfigError>)
    ensures
        match r {
            Ok(_) => json_delete(old(root)@, path@) == Ok::<JsonV, PathErrV>(final(root)@),
            Err(e) => e matches ConfigError::Path(p) && json_delete(old(root)@, path@) == Err::<
                JsonV,
                PathErrV,
            >(p@) && final(root)@ == old(root)@,
        },
{
    if path.is_empty() {
        return Err(ConfigError::Path(PathError::EmptyPath));
    }
    let r = json_delete_at(root, path, 0, ValuePath::new());
    proof {
        assert(path@.skip(0) =~= path@);
    }
    match r {
        Ok(_) => Ok(()),
        Err(e) => Err(ConfigError::Path(e)),
    }
}

/// Lists the immediate children of the node at `path` in a JSON document.
pub fn list_json(root: &JsonNode, path: &ValuePath) -> (r: Result<Vec<PathSeg>, ConfigError>)
    ensures
        match r {
            Ok(cs) => spec_json_list(root@, path@) == Ok::<Seq<SegV>, PathErrV>(segs_view(cs@)),
            Err(e) => e matches ConfigError::Path(p) && spec_json_list(root@, path@) == Err::<
                Seq<SegV>,
                PathErrV,
            >(p@),
        },
{
    match json_list(root, path) {
        Ok(cs) => Ok(cs),
        Err(e) => Err(ConfigError::Path(e)),
    }
}

/// Reads the node at `path` in a TOML document: scalars render to their
/// bare text; a table or array renders as the formatted document's own
/// text for that subtree.
pub fn read_toml(doc: &toml_edit::DocumentMut, skel: &TomlItem, path: &ValuePath) -> (r: Result<
    String,
    ConfigError,
>)
    ensures
        match r {
            Ok(s) => toml_resolve(skel@, path@) matches Ok(at) && (spec_toml_at_display(at)
                is Some ==> spec_toml_at_display(at) == Some(s@)),
            Err(e) => e matches ConfigError::Path(p) && toml_resolve(skel@, path@) == Err::<
                TomlAtV,
                PathErrV,
            >(p@),
        },
{
    match get_toml_at_path(skel, path) {
        Ok(at) => {
            match toml_at_scalar_display(&at) {
                Some(s) => Ok(s),
                None => {
                    match toml_subtree_text(doc, path) {
                        Some(s) => Ok(s),
                        None => Ok(String::new()),
                    }
                },
            }
        },
        Err(e) => Err(ConfigError::Path(e)),
    }
}

/// Sets the node at `path` in a TOML document to the value inferred from
/// its literal text, keeping every sibling's formatting and comments
/// untouched.  Kinds must agree as for the JSON backend; a value with no
/// TOML form is refused.  The caller hands in a document and its own
/// skeleton, as `load_toml` returns them; the skeleton is brought to the
/// replaced shape and the formatted document is edited in place through
/// the format-preserving editor.
pub fn set_toml(
    doc: &mut toml_edit::DocumentMut,
    skel: &mut TomlItem,
    path: &ValuePath,
    value: ConfigValue,
    coerce: bool,
) -> (r: Result<(), ConfigError>)
    requires
        crate::bridge::doc_skel(*old(doc)) == old(skel)@,
    ensures
        coerce ==> (r matches Err(ConfigError::NotSupported(_)) && final(skel)@ == old(skel)@),
        !coerce ==> match toml_resolve(old(skel)@, path@) {
            Err(pe) => r matches Err(ConfigError::Path(p)) && p@ == pe && final(skel)@ == old(
                skel,
            )@,
            Ok(at) => if at.kind() != value@.kind() {
                ({
                    &&& r matches Err(ce)
                    &&& ce matches ConfigError::Type(te)
                    &&& te matches TypeError::TypeMismatch { path: tp, expected, found }
                    &&& tp@ == path@
                    &&& expected == at.kind()
                    &&& found == value@.kind()
                    &&& final(skel)@ == old(skel)@
                })
            } else {
                match value@.as_toml() {
                    None => r matches Err(ConfigError::NotSupported(_)) && final(skel)@ == old(
                        skel,
                    )@,
                    Some(nv) => r is Ok && toml_item_replace(old(skel)@, path@, Seq::empty(), nv)
                        == Ok::<crate::model::TomlItemV, PathErrV>(final(skel)@),
                }
            },
        },
{
    if coerce {
        return Err(
            ConfigError::NotSupported(
                NotSupportedError::Flag {
                    option: String::from_str("--coerce"),
                    hint: String::from_str("Coercion is not defined yet; set a matching type."),
                },
            ),
        );
    }
    let existing = match get_toml_at_path(skel, path) {
        Ok(at) => at.type_kind(),
        Err(e) => {
            return Err(ConfigError::Path(e));
        },
    };
    let wanted = value.kind();
    if existing != wanted {
        return Err(
            ConfigError::Type(TypeError::mismatch(path.duplicate(), existing, wanted)),
        );
    }
    let nv = match value.to_toml_value() {
        Some(v) => v,
        None => {
            return Err(
                ConfigError::NotSupported(
                    NotSupportedError::Feature {
                        feature: String::from_str("null or oversized integer values in TOML"),
                        hint: String::from_str(
                            "TOML has no null and its integers are signed 64-bit.",
                        ),
                    },
                ),
            );
        },
    };
    proof {
        // The target's kind equals the value's, and no replacement value
        // is an object, so the cursor is not an array-of-tables element:
        // replacement is owed to succeed.
        assert(nv@.kind() != TypeKind::Object);
        crate::navigate_toml::lemma_toml_replace_succeeds(old(skel)@, path@, nv@);
    }
    let applied = toml_doc_replace(doc, path, &nv);
    let r = toml_set_item(skel, path, 0, ValuePath::new(), nv);
    proof {
        assert(path@.skip(0) =~= path@);
    }
    match r {
        Ok(_) => {
            proof {
                // The path resolves in the document's skeleton, so the
                // format-preserving editor succeeded too.
                assert(applied);
            }
            Ok(())
        },
        Err(e) => Err(ConfigError::Path(e)),
    }
}

/// Deletes the node at `path` in a TOML document, keeping all other
/// formatting untouched.  Deleting an absent key or index is an error.
/// The caller hands in a document and its own skeleton, as `load_toml`
/// returns them.
pub fn delete_toml(doc: &mut toml_edit::DocumentMut, skel: &mut TomlItem, path: &ValuePath) -> (r:
    Result<(), ConfigError>)
    requires
        crate::bridge::doc_skel(*old(doc)) == old(skel)@,
    ensures
        match toml_delete(old(skel)@, path@) {
            Ok(m) => final(skel)@ == m && r is Ok,
            Err(pe) => r matches Err(ConfigError::Path(p)) && p@ == pe && final(skel)@ == old(
                skel,
            )@,
        },
{
    if path.is_empty() {
        return Err(ConfigError::Path(PathError::EmptyPath));
    }
    let applied = toml_doc_delete(doc, path);
    let r = toml_delete_item(skel, path, 0, ValuePath::new());
    proof {
        assert(path@.skip(0) =~= path@);
    }
    match r {
        Ok(_) => {
            proof {
                // The path's entry is removable in the document's
                // skeleton, so the format-preserving editor succeeded too.
                assert(applied);
            }
            Ok(())
        },
        Err(e) => Err(ConfigError::Path(e)),
    }
}

} // verus!

verus! {

/// Lists the immediate children of the node at `path` in a TOML document.
pub fn list_toml(skel: &TomlItem, path: &ValuePath) -> (r: Result<Vec<PathSeg>, ConfigError>)
    ensures
        match r {
            Ok(cs) => crate::navigate_toml::spec_toml_list(skel@, path@) == Ok::<
                Seq<SegV>,
                PathErrV,
            >(segs_view(cs@)),
            Err(e) => e matches ConfigError::Path(p) && crate::navigate_toml::spec_toml_list(
                skel@,
                path@,
            ) == Err::<Seq<SegV>, PathErrV>(p@),
        },
{
    match crate::navigate_toml::toml_list(skel, path) {
        Ok(cs) => Ok(cs),
        Err(e) => Err(ConfigError::Path(e)),
    }
}

} // verus!
