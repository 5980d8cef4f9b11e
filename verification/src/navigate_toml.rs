use vstd::prelude::*;
use crate::model::{TomlItem, TomlItemV, TomlValue, TomlValueV, toml_item_view, toml_value_view};
use crate::kinds::TypeKind;
use crate::paths::{PathSeg, SegV, ValuePath};
use crate::errors::path::{PathError, PathErrV};
use crate::navigate::{obj_find, lemma_obj_find_is};

verus! {

// ---------------------------------------------------------------------------
// Resolution over the TOML tree.
//
// A position in the document is one of three cursor shapes, and they are
// not interchangeable: a document-level entry (`Item`), a value on the
// right of `=` (`Value`), or an element of an array of tables (`Table`).
// Key lookup through a `Table` cursor uses table semantics even though the
// element sits syntactically inside an array.
// ---------------------------------------------------------------------------

/// A position inside a TOML document during resolution.
#[derive(Clone, Copy)]
pub enum TomlAt<'a> {
    Item(&'a TomlItem),
    Value(&'a TomlValue),
    Table(&'a Vec<(String, TomlItem)>),
}

/// The mathematical shape of a TOML cursor.
pub enum TomlAtV {
    Item(TomlItemV),
    Value(TomlValueV),
    Table(Seq<(Seq<char>, TomlItemV)>),
}

/// The abstract view of a table's entry list.
pub open spec fn toml_entries_view(s: Seq<(String, TomlItem)>) -> Seq<(Seq<char>, TomlItemV)> {
    Seq::new(s.len(), |i: int| (s[i].0@, toml_item_view(s[i].1)))
}

/// The abstract view of an inline table's entry list.
pub open spec fn toml_inline_view(s: Seq<(String, TomlValue)>) -> Seq<(Seq<char>, TomlValueV)> {
    Seq::new(s.len(), |i: int| (s[i].0@, toml_value_view(s[i].1)))
}

/// The abstract view of a value array.
pub open spec fn toml_varr_view(s: Seq<TomlValue>) -> Seq<TomlValueV> {
    Seq::new(s.len(), |i: int| toml_value_view(s[i]))
}

impl<'a> View for TomlAt<'a> {
    type V = TomlAtV;

    open spec fn view(&self) -> TomlAtV {
        match self {
            TomlAt::Item(item) => TomlAtV::Item(toml_item_view(**item)),
            TomlAt::Value(v) => TomlAtV::Value(toml_value_view(**v)),
            TomlAt::Table(entries) => TomlAtV::Table(toml_entries_view(entries@)),
        }
    }
}

impl TomlAtV {
    /// Classification of the node under the cursor.
    pub open spec fn kind(self) -> TypeKind {
        match self {
            TomlAtV::Item(item) => item.kind(),
            TomlAtV::Value(v) => v.kind(),
            TomlAtV::Table(_) => TypeKind::Object,
        }
    }
}

// View connection lemmas: each container shape, seen abstractly.

pub proof fn lemma_toml_table_view(entries: Vec<(String, TomlItem)>)
    ensures
        toml_item_view(TomlItem::Table(entries)) == TomlItemV::Table(toml_entries_view(entries@)),
{
    assert(toml_item_view(TomlItem::Table(entries))->Table_0 =~= toml_entries_view(entries@));
}

pub proof fn lemma_toml_aot_view(tables: Vec<Vec<(String, TomlItem)>>)
    ensures
        toml_item_view(TomlItem::ArrayOfTables(tables)) matches TomlItemV::ArrayOfTables(tv)
            && tv.len() == tables@.len() && forall|i: int|
            0 <= i < tables@.len() ==> #[trigger] tv[i] == toml_entries_view(tables@[i]@),
{
    let tv = toml_item_view(TomlItem::ArrayOfTables(tables))->ArrayOfTables_0;
    assert forall|i: int| 0 <= i < tables@.len() implies #[trigger] tv[i] == toml_entries_view(
        tables@[i]@,
    ) by {
        assert(tv[i] =~= toml_entries_view(tables@[i]@));
    }
}

pub proof fn lemma_toml_inline_view(entries: Vec<(String, TomlValue)>)
    ensures
        toml_value_view(TomlValue::Inline(entries)) == TomlValueV::Inline(
            toml_inline_view(entries@),
        ),
{
    assert(toml_value_view(TomlValue::Inline(entries))->Inline_0 =~= toml_inline_view(entries@));
}

pub proof fn lemma_toml_varr_view(elems: Vec<TomlValue>)
    ensures
        toml_value_view(TomlValue::Arr(elems)) == TomlValueV::Arr(toml_varr_view(elems@)),
{
    assert(toml_value_view(TomlValue::Arr(elems))->Arr_0 =~= toml_varr_view(elems@));
}

// ---------------------------------------------------------------------------
// The resolution relation.
// ---------------------------------------------------------------------------

/// One key step from a cursor.
pub open spec fn toml_step_key(cur: TomlAtV, k: Seq<char>, prefix: Seq<SegV>) -> Result<
    TomlAtV,
    PathErrV,
> {
    match cur {
        TomlAtV::Item(TomlItemV::Table(entries)) => {
            let j = obj_find(entries, k);
            if j < 0 {
                Err(PathErrV::KeyNotFound { prefix, key: k })
            } else {
                Ok(TomlAtV::Item(entries[j].1))
            }
        },
        TomlAtV::Item(TomlItemV::Value(v)) => match v {
            TomlValueV::Inline(entries) => {
                let j = obj_find(entries, k);
                if j < 0 {
                    Err(PathErrV::KeyNotFound { prefix, key: k })
                } else {
                    Ok(TomlAtV::Value(entries[j].1))
                }
            },
            _ => Err(PathErrV::NotAnObject { prefix, key: k, found: v.kind() }),
        },
        TomlAtV::Value(v) => match v {
            TomlValueV::Inline(entries) => {
                let j = obj_find(entries, k);
                if j < 0 {
                    Err(PathErrV::KeyNotFound { prefix, key: k })
                } else {
                    Ok(TomlAtV::Value(entries[j].1))
                }
            },
            _ => Err(PathErrV::NotAnObject { prefix, key: k, found: v.kind() }),
        },
        TomlAtV::Table(entries) => {
            let j = obj_find(entries, k);
            if j < 0 {
                Err(PathErrV::KeyNotFound { prefix, key: k })
            } else {
                Ok(TomlAtV::Item(entries[j].1))
            }
        },
        TomlAtV::Item(other) => Err(
            PathErrV::NotAnObject { prefix, key: k, found: other.kind() },
        ),
    }
}

/// One index step from a cursor.  An element of an array of tables becomes
/// a `Table` cursor, not a `Value` cursor.
pub open spec fn toml_step_index(cur: TomlAtV, i: int, prefix: Seq<SegV>) -> Result<
    TomlAtV,
    PathErrV,
> {
    match cur {
        TomlAtV::Item(TomlItemV::Value(v)) => match v {
            TomlValueV::Arr(elems) => {
                if 0 <= i < elems.len() {
                    Ok(TomlAtV::Value(elems[i]))
                } else {
                    Err(PathErrV::IndexOutOfBounds { prefix, index: i, len: elems.len() as int })
                }
            },
            _ => Err(PathErrV::NotAnArray { prefix, index: i, found: v.kind() }),
        },
        TomlAtV::Value(v) => match v {
            TomlValueV::Arr(elems) => {
                if 0 <= i < elems.len() {
                    Ok(TomlAtV::Value(elems[i]))
                } else {
                    Err(PathErrV::IndexOutOfBounds { prefix, index: i, len: elems.len() as int })
                }
            },
            _ => Err(PathErrV::NotAnArray { prefix, index: i, found: v.kind() }),
        },
        TomlAtV::Item(TomlItemV::ArrayOfTables(tables)) => {
            if 0 <= i < tables.len() {
                Ok(TomlAtV::Table(tables[i]))
            } else {
                Err(PathErrV::IndexOutOfBounds { prefix, index: i, len: tables.len() as int })
            }
        },
        TomlAtV::Item(other) => Err(
            PathErrV::NotAnArray { prefix, index: i, found: other.kind() },
        ),
        TomlAtV::Table(_) => Err(
            PathErrV::NotAnArray { prefix, index: i, found: TypeKind::Object },
        ),
    }
}

/// The resolution walk from a cursor.
pub open spec fn toml_resolve_from(cur: TomlAtV, segs: Seq<SegV>, prefix: Seq<SegV>) -> Result<
    TomlAtV,
    PathErrV,
>
    decreases segs.len(),
{
    if segs.len() == 0 {
        Ok(cur)
    } else {
        let step = match segs[0] {
            SegV::Key(k) => toml_step_key(cur, k, prefix),
            SegV::Index(i) => toml_step_index(cur, i, prefix),
        };
        match step {
            Ok(next) => toml_resolve_from(next, segs.drop_first(), prefix.push(segs[0])),
            Err(e) => Err(e),
        }
    }
}

/// What resolving a path over a TOML document yields.  The empty path is
/// refused outright.
pub open spec fn toml_resolve(root: TomlItemV, segs: Seq<SegV>) -> Result<TomlAtV, PathErrV> {
    if segs.len() == 0 {
        Err(PathErrV::EmptyPath)
    } else {
        toml_resolve_from(TomlAtV::Item(root), segs, Seq::empty())
    }
}

// ---------------------------------------------------------------------------
// The walker.
// ---------------------------------------------------------------------------

/// Finds the first table entry with the given key.
fn toml_entry_scan(entries: &Vec<(String, TomlItem)>, k: &String) -> (r: Option<usize>)
    ensures
        match r {
            Some(j) => j < entries@.len() && obj_find(toml_entries_view(entries@), k@) == j as int,
            None => obj_find(toml_entries_view(entries@), k@) == -1,
        },
{
    let ghost ev = toml_entries_view(entries@);
    let mut j: usize = 0;
    while j < entries.len()
        invariant
            j <= entries@.len(),
            ev == toml_entries_view(entries@),
            forall|t: int| 0 <= t < j ==> (#[trigger] ev[t]).0 != k@,
        decreases entries@.len() - j,
    {
        if entries[j].0.eq(k) {
            proof {
                assert(ev[j as int].0 == k@);
                lemma_obj_find_is(ev, k@, j as int);
            }
            return Some(j);
        }
        proof {
            assert(ev[j as int].0 == entries@[j as int].0@);
        }
        j = j + 1;
    }
    proof {
        lemma_obj_find_is(ev, k@, entries@.len() as int);
    }
    None
}

/// Finds the first inline-table entry with the given key.
fn toml_inline_scan(entries: &Vec<(String, TomlValue)>, k: &String) -> (r: Option<usize>)
    ensures
        match r {
            Some(j) => j < entries@.len() && obj_find(toml_inline_view(entries@), k@) == j as int,
            None => obj_find(toml_inline_view(entries@), k@) == -1,
        },
{
    let ghost ev = toml_inline_view(entries@);
    let mut j: usize = 0;
    while j < entries.len()
        invariant
            j <= entries@.len(),
            ev == toml_inline_view(entries@),
            forall|t: int| 0 <= t < j ==> (#[trigger] ev[t]).0 != k@,
        decreases entries@.len() - j,
    {
        if entries[j].0.eq(k) {
            proof {
                assert(ev[j as int].0 == k@);
                lemma_obj_find_is(ev, k@, j as int);
            }
            return Some(j);
        }
        proof {
            assert(ev[j as int].0 == entries@[j as int].0@);
        }
        j = j + 1;
    }
    proof {
        lemma_obj_find_is(ev, k@, entries@.len() as int);
    }
    None
}

impl<'a> TomlAt<'a> {
    /// The plain value under the cursor, when it is one.
    pub fn as_value(&self) -> (r: Option<&'a TomlValue>)
        ensures
            match r {
                Some(v) => (self@ matches TomlAtV::Item(TomlItemV::Value(w)) && w == v@) || (
                self@ matches TomlAtV::Value(w) && w == v@),
                None => !(self@ is Value) && !(self@ matches TomlAtV::Item(
                    TomlItemV::Value(_),
                )),
            },
    {
        match self {
            TomlAt::Value(v) => Some(v),
            TomlAt::Item(item) => match item {
                TomlItem::Value(v) => Some(v),
                _ => None,
            },
            TomlAt::Table(_) => None,
        }
    }

    /// Classification of the node under the cursor.
    pub fn type_kind(&self) -> (r: TypeKind)
        ensures
            r == self@.kind(),
    {
        match self {
            TomlAt::Item(item) => TypeKind::from_toml_item(item),
            TomlAt::Value(v) => TypeKind::from_toml_value(v),
            TomlAt::Table(entries) => {
                proof {
                    lemma_toml_table_view(**entries);
                }
                TypeKind::Object
            },
        }
    }
}

/// Resolves `path` over a TOML document, returning a cursor to the node it
/// names or the first failure, with the prefix that did resolve.
pub fn get_toml_at_path<'a>(root: &'a TomlItem, path: &ValuePath) -> (r: Result<
    TomlAt<'a>,
    PathError,
>)
    ensures
        match r {
            Ok(at) => toml_resolve(root@, path@) == Ok::<TomlAtV, PathErrV>(at@),
            Err(e) => toml_resolve(root@, path@) == Err::<TomlAtV, PathErrV>(e@),
        },
{
    if path.is_empty() {
        return Err(PathError::EmptyPath);
    }
    let mut cur: TomlAt<'a> = TomlAt::Item(root);
    let mut prefix = ValuePath::new();
    let n = path.len();
    let mut i: usize = 0;
    proof {
        assert(path@.skip(0) =~= path@);
    }
    while i < n
        invariant
            n == path@.len(),
            0 < n,
            i <= n,
            toml_resolve(root@, path@) == toml_resolve_from(cur@, path@.skip(i as int), prefix@),
        decreases n - i,
    {
        let ghost segs = path@.skip(i as int);
        proof {
            assert(segs[0] == path@[i as int]);
            assert(segs.drop_first() =~= path@.skip(i as int + 1));
        }
        match &path.0[i] {
            PathSeg::Key(k) => {
                proof {
                    assert(segs[0] == SegV::Key(k@));
                }
                match cur {
                    TomlAt::Item(item) => match item {
                        TomlItem::Table(entries) => {
                            proof {
                                lemma_toml_table_view(*entries);
                            }
                            match toml_entry_scan(entries, k) {
                                Some(j) => {
                                    cur = TomlAt::Item(&entries[j].1);
                                    prefix.push_key(k.clone());
                                },
                                None => {
                                    return Err(PathError::key_not_found(prefix, k.clone()));
                                },
                            }
                        },
                        TomlItem::Value(v) => match v {
                            TomlValue::Inline(entries) => {
                                proof {
                                    lemma_toml_inline_view(*entries);
                                }
                                match toml_inline_scan(entries, k) {
                                    Some(j) => {
                                        cur = TomlAt::Value(&entries[j].1);
                                        prefix.push_key(k.clone());
                                    },
                                    None => {
                                        return Err(PathError::key_not_found(prefix, k.clone()));
                                    },
                                }
                            },
                            _ => {
                                let found = TypeKind::from_toml_value(v);
                                return Err(PathError::not_object(prefix, k.clone(), found));
                            },
                        },
                        _ => {
                            let found = TypeKind::from_toml_item(item);
                            return Err(PathError::not_object(prefix, k.clone(), found));
                        },
                    },
                    TomlAt::Value(v) => match v {
                        TomlValue::Inline(entries) => {
                            proof {
                                lemma_toml_inline_view(*entries);
                            }
                            match toml_inline_scan(entries, k) {
                                Some(j) => {
                                    cur = TomlAt::Value(&entries[j].1);
                                    prefix.push_key(k.clone());
                                },
                                None => {
                                    return Err(PathError::key_not_found(prefix, k.clone()));
                                },
                            }
                        },
                        _ => {
                            let found = TypeKind::from_toml_value(v);
                            return Err(PathError::not_object(prefix, k.clone(), found));
                        },
                    },
                    TomlAt::Table(entries) => {
                        match toml_entry_scan(entries, k) {
                            Some(j) => {
                                cur = TomlAt::Item(&entries[j].1);
                                prefix.push_key(k.clone());
                            },
                            None => {
                                return Err(PathError::key_not_found(prefix, k.clone()));
                            },
                        }
                    },
                }
            },
            PathSeg::Index(idx) => {
                proof {
                    assert(segs[0] == SegV::Index(*idx as int));
                }
                match cur {
                    TomlAt::Item(item) => match item {
                        TomlItem::Value(v) => match v {
                            TomlValue::Arr(elems) => {
                                proof {
                                    lemma_toml_varr_view(*elems);
                                }
                                if *idx < elems.len() {
                                    cur = TomlAt::Value(&elems[*idx]);
                                    prefix.push_index(*idx);
                                } else {
                                    return Err(PathError::oob(prefix, *idx, elems.len()));
                                }
                            },
                            _ => {
                                let found = TypeKind::from_toml_value(v);
                                return Err(PathError::not_array(prefix, *idx, found));
                            },
                        },
                        TomlItem::ArrayOfTables(tables) => {
                            proof {
                                lemma_toml_aot_view(*tables);
                            }
                            if *idx < tables.len() {
                                cur = TomlAt::Table(&tables[*idx]);
                                prefix.push_index(*idx);
                            } else {
                                return Err(PathError::oob(prefix, *idx, tables.len()));
                            }
                        },
                        _ => {
                            let found = TypeKind::from_toml_item(item);
                            return Err(PathError::not_array(prefix, *idx, found));
                        },
                    },
                    TomlAt::Value(v) => match v {
                        TomlValue::Arr(elems) => {
                            proof {
                                lemma_toml_varr_view(*elems);
                            }
                            if *idx < elems.len() {
                                cur = TomlAt::Value(&elems[*idx]);
                                prefix.push_index(*idx);
                            } else {
                                return Err(PathError::oob(prefix, *idx, elems.len()));
                            }
                        },
                        _ => {
                            let found = TypeKind::from_toml_value(v);
                            return Err(PathError::not_array(prefix, *idx, found));
                        },
                    },
                    TomlAt::Table(_) => {
                        return Err(PathError::not_array(prefix, *idx, TypeKind::Object));
                    },
                }
            },
        }
        i = i + 1;
    }
    proof {
        assert(path@.skip(n as int) =~= Seq::<SegV>::empty());
    }
    Ok(cur)
}

} // verus!

verus! {

// ---------------------------------------------------------------------------
// Replacement and removal over the TOML tree.
//
// Three mutually recursive walks mirror the cursor shapes: one over a
// table's entry list, one over a document entry, one over a value.  An
// element of an array of tables is walked with table semantics.
// ---------------------------------------------------------------------------

/// Replaces the node at `segs` below a table's entries with `nv`.
pub open spec fn toml_entries_replace(
    entries: Seq<(Seq<char>, TomlItemV)>,
    segs: Seq<SegV>,
    prefix: Seq<SegV>,
    nv: TomlValueV,
) -> Result<Seq<(Seq<char>, TomlItemV)>, PathErrV>
    decreases segs.len(), 1int,
{
    if segs.len() == 0 {
        // A table reached with no segments left cannot happen from the
        // top-level walk; refuse it like the empty path.
        Err(PathErrV::EmptyPath)
    } else {
        match segs[0] {
            SegV::Key(k) => {
                let j = obj_find(entries, k);
                if j < 0 {
                    Err(PathErrV::KeyNotFound { prefix, key: k })
                } else {
                    match toml_item_replace(
                        entries[j].1,
                        segs.drop_first(),
                        prefix.push(segs[0]),
                        nv,
                    ) {
                        Ok(c) => Ok(entries.update(j, (entries[j].0, c))),
                        Err(e) => Err(e),
                    }
                }
            },
            SegV::Index(i) => Err(
                PathErrV::NotAnArray { prefix, index: i, found: TypeKind::Object },
            ),
        }
    }
}

/// Replaces the node at `segs` below a document entry with `nv`.  With no
/// segments left the entry itself becomes the plain value `nv`.
pub open spec fn toml_item_replace(
    item: TomlItemV,
    segs: Seq<SegV>,
    prefix: Seq<SegV>,
    nv: TomlValueV,
) -> Result<TomlItemV, PathErrV>
    decreases segs.len(), 3int,
{
    if segs.len() == 0 {
        Ok(TomlItemV::Value(nv))
    } else {
        match item {
            TomlItemV::Table(entries) => match toml_entries_replace(entries, segs, prefix, nv) {
                Ok(es) => Ok(TomlItemV::Table(es)),
                Err(e) => Err(e),
            },
            TomlItemV::Value(v) => match toml_value_replace(v, segs, prefix, nv) {
                Ok(w) => Ok(TomlItemV::Value(w)),
                Err(e) => Err(e),
            },
            TomlItemV::ArrayOfTables(tables) => match segs[0] {
                SegV::Index(i) => {
                    if 0 <= i < tables.len() {
                        if segs.len() == 1 {
                            // The element is a table; a plain value cannot
                            // stand in its place.
                            Err(
                                PathErrV::Unsupported {
                                    prefix: prefix.push(segs[0]),
                                    message: "an array-of-tables element cannot be replaced by a plain value"@,
                                },
                            )
                        } else {
                            match toml_entries_replace(
                                tables[i],
                                segs.drop_first(),
                                prefix.push(segs[0]),
                                nv,
                            ) {
                                Ok(es) => Ok(TomlItemV::ArrayOfTables(tables.update(i, es))),
                                Err(e) => Err(e),
                            }
                        }
                    } else {
                        Err(
                            PathErrV::IndexOutOfBounds {
                                prefix,
                                index: i,
                                len: tables.len() as int,
                            },
                        )
                    }
                },
                SegV::Key(k) => Err(
                    PathErrV::NotAnObject { prefix, key: k, found: TypeKind::Array },
                ),
            },
            TomlItemV::Absent => match segs[0] {
                SegV::Key(k) => Err(
                    PathErrV::NotAnObject { prefix, key: k, found: TypeKind::Null },
                ),
                SegV::Index(i) => Err(
                    PathErrV::NotAnArray { prefix, index: i, found: TypeKind::Null },
                ),
            },
        }
    }
}

/// Replaces the node at `segs` below a value with `nv`.
pub open spec fn toml_value_replace(
    v: TomlValueV,
    segs: Seq<SegV>,
    prefix: Seq<SegV>,
    nv: TomlValueV,
) -> Result<TomlValueV, PathErrV>
    decreases segs.len(), 2int,
{
    if segs.len() == 0 {
        Ok(nv)
    } else {
        match segs[0] {
            SegV::Key(k) => match v {
                TomlValueV::Inline(entries) => {
                    let j = obj_find(entries, k);
                    if j < 0 {
                        Err(PathErrV::KeyNotFound { prefix, key: k })
                    } else {
                        match toml_value_replace(
                            entries[j].1,
                            segs.drop_first(),
                            prefix.push(segs[0]),
                            nv,
                        ) {
                            Ok(w) => Ok(TomlValueV::Inline(entries.update(j, (entries[j].0, w)))),
                            Err(e) => Err(e),
                        }
                    }
                },
                _ => Err(PathErrV::NotAnObject { prefix, key: k, found: v.kind() }),
            },
            SegV::Index(i) => match v {
                TomlValueV::Arr(elems) => {
                    if 0 <= i < elems.len() {
                        match toml_value_replace(
                            elems[i],
                            segs.drop_first(),
                            prefix.push(segs[0]),
                            nv,
                        ) {
                            Ok(w) => Ok(TomlValueV::Arr(elems.update(i, w))),
                            Err(e) => Err(e),
                        }
                    } else {
                        Err(
                            PathErrV::IndexOutOfBounds {
                                prefix,
                                index: i,
                                len: elems.len() as int,
                            },
                        )
                    }
                },
                _ => Err(PathErrV::NotAnArray { prefix, index: i, found: v.kind() }),
            },
        }
    }
}

/// Replacement over a whole path; the empty path is refused.
pub open spec fn toml_replace(root: TomlItemV, segs: Seq<SegV>, nv: TomlValueV) -> Result<
    TomlItemV,
    PathErrV,
> {
    if segs.len() == 0 {
        Err(PathErrV::EmptyPath)
    } else {
        toml_item_replace(root, segs, Seq::empty(), nv)
    }
}

/// Removes the entry named by the last of `segs` below a table's entries.
pub open spec fn toml_entries_remove(
    entries: Seq<(Seq<char>, TomlItemV)>,
    segs: Seq<SegV>,
    prefix: Seq<SegV>,
) -> Result<Seq<(Seq<char>, TomlItemV)>, PathErrV>
    decreases segs.len(), 1int,
{
    if segs.len() == 0 {
        Err(PathErrV::EmptyPath)
    } else {
        match segs[0] {
            SegV::Key(k) => {
                let j = obj_find(entries, k);
                if j < 0 {
                    Err(PathErrV::KeyNotFound { prefix, key: k })
                } else if segs.len() == 1 {
                    Ok(entries.remove(j))
                } else {
                    match toml_item_remove(entries[j].1, segs.drop_first(), prefix.push(segs[0])) {
                        Ok(c) => Ok(entries.update(j, (entries[j].0, c))),
                        Err(e) => Err(e),
                    }
                }
            },
            SegV::Index(i) => Err(
                PathErrV::NotAnArray { prefix, index: i, found: TypeKind::Object },
            ),
        }
    }
}

/// Removes the entry named by the last of `segs` below a document entry.
pub open spec fn toml_item_remove(item: TomlItemV, segs: Seq<SegV>, prefix: Seq<SegV>) -> Result<
    TomlItemV,
    PathErrV,
>
    decreases segs.len(), 3int,
{
    if segs.len() == 0 {
        Err(PathErrV::EmptyPath)
    } else {
        match item {
            TomlItemV::Table(entries) => match toml_entries_remove(entries, segs, prefix) {
                Ok(es) => Ok(TomlItemV::Table(es)),
                Err(e) => Err(e),
            },
            TomlItemV::Value(v) => match toml_value_remove(v, segs, prefix) {
                Ok(w) => Ok(TomlItemV::Value(w)),
                Err(e) => Err(e),
            },
            TomlItemV::ArrayOfTables(tables) => match segs[0] {
                SegV::Index(i) => {
                    if 0 <= i < tables.len() {
                        if segs.len() == 1 {
                            Ok(TomlItemV::ArrayOfTables(tables.remove(i)))
                        } else {
                            match toml_entries_remove(
                                tables[i],
                                segs.drop_first(),
                                prefix.push(segs[0]),
                            ) {
                                Ok(es) => Ok(TomlItemV::ArrayOfTables(tables.update(i, es))),
                                Err(e) => Err(e),
                            }
                        }
                    } else {
                        Err(
                            PathErrV::IndexOutOfBounds {
                                prefix,
                                index: i,
                                len: tables.len() as int,
                            },
                        )
                    }
                },
                SegV::Key(k) => Err(
                    PathErrV::NotAnObject { prefix, key: k, found: TypeKind::Array },
                ),
            },
            TomlItemV::Absent => match segs[0] {
                SegV::Key(k) => Err(
                    PathErrV::NotAnObject { prefix, key: k, found: TypeKind::Null },
                ),
                SegV::Index(i) => Err(
                    PathErrV::NotAnArray { prefix, index: i, found: TypeKind::Null },
                ),
            },
        }
    }
}

/// Removes the entry named by the last of `segs` below a value.
pub open spec fn toml_value_remove(v: TomlValueV, segs: Seq<SegV>, prefix: Seq<SegV>) -> Result<
    TomlValueV,
    PathErrV,
>
    decreases segs.len(), 2int,
{
    if segs.len() == 0 {
        Err(PathErrV::EmptyPath)
    } else {
        match segs[0] {
            SegV::Key(k) => match v {
                TomlValueV::Inline(entries) => {
                    let j = obj_find(entries, k);
                    if j < 0 {
                        Err(PathErrV::KeyNotFound { prefix, key: k })
                    } else if segs.len() == 1 {
                        Ok(TomlValueV::Inline(entries.remove(j)))
                    } else {
                        match toml_value_remove(
                            entries[j].1,
                            segs.drop_first(),
                            prefix.push(segs[0]),
                        ) {
                            Ok(w) => Ok(TomlValueV::Inline(entries.update(j, (entries[j].0, w)))),
                            Err(e) => Err(e),
                        }
                    }
                },
                _ => Err(PathErrV::NotAnObject { prefix, key: k, found: v.kind() }),
            },
            SegV::Index(i) => match v {
                TomlValueV::Arr(elems) => {
                    if 0 <= i < elems.len() {
                        if segs.len() == 1 {
                            Ok(TomlValueV::Arr(elems.remove(i)))
                        } else {
                            match toml_value_remove(
                                elems[i],
                                segs.drop_first(),
                                prefix.push(segs[0]),
                            ) {
                                Ok(w) => Ok(TomlValueV::Arr(elems.update(i, w))),
                                Err(e) => Err(e),
                            }
                        }
                    } else {
                        Err(
                            PathErrV::IndexOutOfBounds {
                                prefix,
                                index: i,
                                len: elems.len() as int,
                            },
                        )
                    }
                },
                _ => Err(PathErrV::NotAnArray { prefix, index: i, found: v.kind() }),
            },
        }
    }
}

/// Removal over a whole path; the empty path is refused.
pub open spec fn toml_delete(root: TomlItemV, segs: Seq<SegV>) -> Result<TomlItemV, PathErrV> {
    if segs.len() == 0 {
        Err(PathErrV::EmptyPath)
    } else {
        toml_item_remove(root, segs, Seq::empty())
    }
}

} // verus!

verus! {

/// Mutable access to the item half of a table entry.
fn toml_entry_item_mut<'a>(e: &'a mut (String, TomlItem)) -> (r: &'a mut TomlItem)
    ensures
        *r == old(e).1,
        *final(e) == (old(e).0, *final(r)),
{
    &mut e.1
}

/// Mutable access to the value half of an inline-table entry.
fn toml_entry_value_mut<'a>(e: &'a mut (String, TomlValue)) -> (r: &'a mut TomlValue)
    ensures
        *r == old(e).1,
        *final(e) == (old(e).0, *final(r)),
{
    &mut e.1
}

/// Replaces the node at `path[i..]` below a table's entries, in place.
pub fn toml_set_entries(
    entries: &mut Vec<(String, TomlItem)>,
    path: &ValuePath,
    i: usize,
    prefix: ValuePath,
    nv: TomlValue,
) -> (r: Result<(), PathError>)
    requires
        i <= path@.len(),
    ensures
        match r {
            Ok(_) => toml_entries_replace(
                toml_entries_view(old(entries)@),
                path@.skip(i as int),
                prefix@,
                nv@,
            ) == Ok::<Seq<(Seq<char>, TomlItemV)>, PathErrV>(toml_entries_view(final(entries)@)),
            Err(e) => toml_entries_replace(
                toml_entries_view(old(entries)@),
                path@.skip(i as int),
                prefix@,
                nv@,
            ) == Err::<Seq<(Seq<char>, TomlItemV)>, PathErrV>(e@) && toml_entries_view(
                final(entries)@,
            ) == toml_entries_view(old(entries)@),
        },
    decreases path@.len() - i, 1int,
{
    let n = path.len();
    if i == n {
        proof {
            assert(path@.skip(i as int) =~= Seq::<SegV>::empty());
        }
        return Err(PathError::EmptyPath);
    }
    let ghost segs = path@.skip(i as int);
    proof {
        assert(segs[0] == path@[i as int]);
        assert(segs.drop_first() =~= path@.skip(i as int + 1));
    }
    match &path.0[i] {
        PathSeg::Key(k) => {
            proof {
                assert(segs[0] == SegV::Key(k@));
            }
            let ghost old_entries = entries@;
            let ghost old_ev = toml_entries_view(entries@);
            match toml_entry_scan(entries, k) {
                Some(j) => {
                    let mut prefix2 = prefix;
                    prefix2.push_key(k.clone());
                    let e = &mut entries[j];
                    let child = toml_entry_item_mut(e);
                    let res = toml_set_item(child, path, i + 1, prefix2, nv);
                    proof {
                        assert(old_ev[j as int].1 == toml_item_view(old_entries[j as int].1));
                        let newv = toml_entries_view(entries@);
                        match res {
                            Ok(_) => {
                                let c = toml_item_view(entries@[j as int].1);
                                let target = old_ev.update(j as int, (old_ev[j as int].0, c));
                                assert forall|t: int|
                                    0 <= t < newv.len() implies newv[t] == target[t] by {
                                    if t != j as int {
                                        assert(entries@[t] == old_entries[t]);
                                    }
                                }
                                assert(newv =~= target);
                            },
                            Err(_) => {
                                assert forall|t: int|
                                    0 <= t < newv.len() implies newv[t] == old_ev[t] by {
                                    if t != j as int {
                                        assert(entries@[t] == old_entries[t]);
                                    } else {
                                        assert(entries@[t].0 == old_entries[t].0);
                                        assert(toml_item_view(entries@[t].1) == toml_item_view(
                                            old_entries[t].1,
                                        ));
                                    }
                                }
                                assert(newv =~= old_ev);
                            },
                        }
                    }
                    match res {
                        Ok(_) => Ok(()),
                        Err(e2) => Err(e2),
                    }
                },
                None => Err(PathError::key_not_found(prefix, k.clone())),
            }
        },
        PathSeg::Index(idx) => {
            proof {
                assert(segs[0] == SegV::Index(*idx as int));
            }
            Err(PathError::not_array(prefix, *idx, TypeKind::Object))
        },
    }
}

/// Replaces the node at `path[i..]` below a document entry, in place.
pub fn toml_set_item(
    item: &mut TomlItem,
    path: &ValuePath,
    i: usize,
    prefix: ValuePath,
    nv: TomlValue,
) -> (r: Result<(), PathError>)
    requires
        i <= path@.len(),
    ensures
        match r {
            Ok(_) => toml_item_replace(old(item)@, path@.skip(i as int), prefix@, nv@) == Ok::<
                TomlItemV,
                PathErrV,
            >(final(item)@),
            Err(e) => toml_item_replace(old(item)@, path@.skip(i as int), prefix@, nv@) == Err::<
                TomlItemV,
                PathErrV,
            >(e@) && final(item)@ == old(item)@,
        },
    decreases path@.len() - i, 3int,
{
    let n = path.len();
    if i == n {
        *item = TomlItem::Value(nv);
        proof {
            assert(path@.skip(i as int) =~= Seq::<SegV>::empty());
        }
        return Ok(());
    }
    let ghost segs = path@.skip(i as int);
    proof {
        assert(segs[0] == path@[i as int]);
        assert(segs.drop_first() =~= path@.skip(i as int + 1));
    }
    match item {
        TomlItem::Table(entries) => {
            proof {
                lemma_toml_table_view(*entries);
            }
            let res = toml_set_entries(entries, path, i, prefix, nv);
            proof {
                lemma_toml_table_view(*entries);
            }
            res
        },
        TomlItem::Value(v) => {
            let res = toml_set_value(v, path, i, prefix, nv);
            res
        },
        TomlItem::ArrayOfTables(tables) => {
            proof {
                lemma_toml_aot_view(*tables);
            }
            let ghost old_tables = tables@;
            let ghost old_tv = toml_item_view(TomlItem::ArrayOfTables(*tables))->ArrayOfTables_0;
            match &path.0[i] {
                PathSeg::Index(idx) => {
                    if *idx < tables.len() {
                        let mut prefix2 = prefix;
                        prefix2.push_index(*idx);
                        if i + 1 == n {
                            proof {
                                assert(path@.skip(i as int).len() == 1);
                            }
                            Err(
                                PathError::unsupported(
                                    prefix2,
                                    String::from_str(
                                        "an array-of-tables element cannot be replaced by a plain value",
                                    ),
                                ),
                            )
                        } else {
                            let inner = &mut tables[*idx];
                            let res = toml_set_entries(inner, path, i + 1, prefix2, nv);
                            proof {
                                lemma_toml_aot_view(*tables);
                                let newtv = toml_item_view(
                                    TomlItem::ArrayOfTables(*tables),
                                )->ArrayOfTables_0;
                                match res {
                                    Ok(_) => {
                                        let c = toml_entries_view(tables@[*idx as int]@);
                                        let target = old_tv.update(*idx as int, c);
                                        assert forall|t: int|
                                            0 <= t < newtv.len() implies newtv[t] == target[t] by {
                                            if t != *idx as int {
                                                assert(tables@[t] == old_tables[t]);
                                            }
                                        }
                                        assert(newtv =~= target);
                                    },
                                    Err(_) => {
                                        assert forall|t: int|
                                            0 <= t < newtv.len() implies newtv[t] == old_tv[t] by {
                                            if t != *idx as int {
                                                assert(tables@[t] == old_tables[t]);
                                            } else {
                                                assert(toml_entries_view(tables@[t]@)
                                                    == toml_entries_view(old_tables[t]@));
                                            }
                                        }
                                        assert(newtv =~= old_tv);
                                    },
                                }
                            }
                            match res {
                                Ok(_) => Ok(()),
                                Err(e2) => Err(e2),
                            }
                        }
                    } else {
                        Err(PathError::oob(prefix, *idx, tables.len()))
                    }
                },
                PathSeg::Key(k) => {
                    proof {
                        assert(segs[0] == SegV::Key(k@));
                    }
                    Err(PathError::not_object(prefix, k.clone(), TypeKind::Array))
                },
            }
        },
        TomlItem::Absent => {
            match &path.0[i] {
                PathSeg::Key(k) => Err(PathError::not_object(prefix, k.clone(), TypeKind::Null)),
                PathSeg::Index(idx) => Err(PathError::not_array(prefix, *idx, TypeKind::Null)),
            }
        },
    }
}

/// Replaces the node at `path[i..]` below a value, in place.
pub fn toml_set_value(
    v: &mut TomlValue,
    path: &ValuePath,
    i: usize,
    prefix: ValuePath,
    nv: TomlValue,
) -> (r: Result<(), PathError>)
    requires
        i <= path@.len(),
    ensures
        match r {
            Ok(_) => toml_value_replace(old(v)@, path@.skip(i as int), prefix@, nv@) == Ok::<
                TomlValueV,
                PathErrV,
            >(final(v)@),
            Err(e) => toml_value_replace(old(v)@, path@.skip(i as int), prefix@, nv@) == Err::<
                TomlValueV,
                PathErrV,
            >(e@) && final(v)@ == old(v)@,
        },
    decreases path@.len() - i, 2int,
{
    let n = path.len();
    if i == n {
        *v = nv;
        proof {
            assert(path@.skip(i as int) =~= Seq::<SegV>::empty());
        }
        return Ok(());
    }
    let ghost segs = path@.skip(i as int);
    proof {
        assert(segs[0] == path@[i as int]);
        assert(segs.drop_first() =~= path@.skip(i as int + 1));
    }
    match &path.0[i] {
        PathSeg::Key(k) => {
            proof {
                assert(segs[0] == SegV::Key(k@));
            }
            match v {
                TomlValue::Inline(entries) => {
                    proof {
                        lemma_toml_inline_view(*entries);
                    }
                    let ghost old_entries = entries@;
                    let ghost old_ev = toml_inline_view(entries@);
                    match toml_inline_scan(entries, k) {
                        Some(j) => {
                            let mut prefix2 = prefix;
                            prefix2.push_key(k.clone());
                            let e = &mut entries[j];
                            let child = toml_entry_value_mut(e);
                            let res = toml_set_value(child, path, i + 1, prefix2, nv);
                            proof {
                                lemma_toml_inline_view(*entries);
                                assert(old_ev[j as int].1 == toml_value_view(
                                    old_entries[j as int].1,
                                ));
                                let newv = toml_inline_view(entries@);
                                match res {
                                    Ok(_) => {
                                        let c = toml_value_view(entries@[j as int].1);
                                        let target = old_ev.update(
                                            j as int,
                                            (old_ev[j as int].0, c),
                                        );
                                        assert forall|t: int|
                                            0 <= t < newv.len() implies newv[t] == target[t] by {
                                            if t != j as int {
                                                assert(entries@[t] == old_entries[t]);
                                            }
                                        }
                                        assert(newv =~= target);
                                    },
                                    Err(_) => {
                                        assert forall|t: int|
                                            0 <= t < newv.len() implies newv[t] == old_ev[t] by {
                                            if t != j as int {
                                                assert(entries@[t] == old_entries[t]);
                                            } else {
                                                assert(entries@[t].0 == old_entries[t].0);
                                                assert(toml_value_view(entries@[t].1)
                                                    == toml_value_view(old_entries[t].1));
                                            }
                                        }
                                        assert(newv =~= old_ev);
                                    },
                                }
                            }
                            match res {
                                Ok(_) => Ok(()),
                                Err(e2) => Err(e2),
                            }
                        },
                        None => Err(PathError::key_not_found(prefix, k.clone())),
                    }
                },
                _ => {
                    let found = TypeKind::from_toml_value(v);
                    Err(PathError::not_object(prefix, k.clone(), found))
                },
            }
        },
        PathSeg::Index(idx) => {
            proof {
                assert(segs[0] == SegV::Index(*idx as int));
            }
            match v {
                TomlValue::Arr(elems) => {
                    proof {
                        lemma_toml_varr_view(*elems);
                    }
                    let ghost old_elems = elems@;
                    let ghost old_ev = toml_varr_view(elems@);
                    if *idx < elems.len() {
                        let mut prefix2 = prefix;
                        prefix2.push_index(*idx);
                        let child = &mut elems[*idx];
                        let res = toml_set_value(child, path, i + 1, prefix2, nv);
                        proof {
                            lemma_toml_varr_view(*elems);
                            let newv = toml_varr_view(elems@);
                            match res {
                                Ok(_) => {
                                    let c = toml_value_view(elems@[*idx as int]);
                                    let target = old_ev.update(*idx as int, c);
                                    assert forall|t: int|
                                        0 <= t < newv.len() implies newv[t] == target[t] by {
                                        if t != *idx as int {
                                            assert(elems@[t] == old_elems[t]);
                                        }
                                    }
                                    assert(newv =~= target);
                                },
                                Err(_) => {
                                    assert forall|t: int|
                                        0 <= t < newv.len() implies newv[t] == old_ev[t] by {
                                        if t != *idx as int {
                                            assert(elems@[t] == old_elems[t]);
                                        } else {
                                            assert(toml_value_view(elems@[t]) == toml_value_view(
                                                old_elems[t],
                                            ));
                                        }
                                    }
                                    assert(newv =~= old_ev);
                                },
                            }
                        }
                        match res {
                            Ok(_) => Ok(()),
                            Err(e2) => Err(e2),
                        }
                    } else {
                        Err(PathError::oob(prefix, *idx, elems.len()))
                    }
                },
                _ => {
                    let found = TypeKind::from_toml_value(v);
                    Err(PathError::not_array(prefix, *idx, found))
                },
            }
        },
    }
}

} // verus!

verus! {

/// Removes the entry named by `path[i..]`'s final segment below a table's
/// entries, in place.
pub fn toml_delete_entries(
    entries: &mut Vec<(String, TomlItem)>,
    path: &ValuePath,
    i: usize,
    prefix: ValuePath,
) -> (r: Result<(), PathError>)
    requires
        i <= path@.len(),
    ensures
        match r {
            Ok(_) => toml_entries_remove(
                toml_entries_view(old(entries)@),
                path@.skip(i as int),
                prefix@,
            ) == Ok::<Seq<(Seq<char>, TomlItemV)>, PathErrV>(toml_entries_view(final(entries)@)),
            Err(e) => toml_entries_remove(
                toml_entries_view(old(entries)@),
                path@.skip(i as int),
                prefix@,
            ) == Err::<Seq<(Seq<char>, TomlItemV)>, PathErrV>(e@) && toml_entries_view(
                final(entries)@,
            ) == toml_entries_view(old(entries)@),
        },
    decreases path@.len() - i, 1int,
{
    let n = path.len();
    if i == n {
        proof {
            assert(path@.skip(i as int) =~= Seq::<SegV>::empty());
        }
        return Err(PathError::EmptyPath);
    }
    let ghost segs = path@.skip(i as int);
    proof {
        assert(segs[0] == path@[i as int]);
        assert(segs.drop_first() =~= path@.skip(i as int + 1));
    }
    match &path.0[i] {
        PathSeg::Key(k) => {
            proof {
                assert(segs[0] == SegV::Key(k@));
            }
            let ghost old_entries = entries@;
            let ghost old_ev = toml_entries_view(entries@);
            match toml_entry_scan(entries, k) {
                Some(j) => {
                    if i + 1 == n {
                        let _ = entries.remove(j);
                        proof {
                            let newv = toml_entries_view(entries@);
                            let target = old_ev.remove(j as int);
                            assert forall|t: int|
                                0 <= t < newv.len() implies newv[t] == target[t] by {
                                if t < j as int {
                                    assert(entries@[t] == old_entries[t]);
                                } else {
                                    assert(entries@[t] == old_entries[t + 1]);
                                }
                            }
                            assert(newv =~= target);
                        }
                        Ok(())
                    } else {
                        let mut prefix2 = prefix;
                        prefix2.push_key(k.clone());
                        let e = &mut entries[j];
                        let child = toml_entry_item_mut(e);
                        let res = toml_delete_item(child, path, i + 1, prefix2);
                        proof {
                            assert(old_ev[j as int].1 == toml_item_view(old_entries[j as int].1));
                            let newv = toml_entries_view(entries@);
                            match res {
                                Ok(_) => {
                                    let c = toml_item_view(entries@[j as int].1);
                                    let target = old_ev.update(j as int, (old_ev[j as int].0, c));
                                    assert forall|t: int|
                                        0 <= t < newv.len() implies newv[t] == target[t] by {
                                        if t != j as int {
                                            assert(entries@[t] == old_entries[t]);
                                        }
                                    }
                                    assert(newv =~= target);
                                },
                                Err(_) => {
                                    assert forall|t: int|
                                        0 <= t < newv.len() implies newv[t] == old_ev[t] by {
                                        if t != j as int {
                                            assert(entries@[t] == old_entries[t]);
                                        } else {
                                            assert(entries@[t].0 == old_entries[t].0);
                                            assert(toml_item_view(entries@[t].1) == toml_item_view(
                                                old_entries[t].1,
                                            ));
                                        }
                                    }
                                    assert(newv =~= old_ev);
                                },
                            }
                        }
                        match res {
                            Ok(_) => Ok(()),
                            Err(e2) => Err(e2),
                        }
                    }
                },
                None => Err(PathError::key_not_found(prefix, k.clone())),
            }
        },
        PathSeg::Index(idx) => {
            proof {
                assert(segs[0] == SegV::Index(*idx as int));
            }
            Err(PathError::not_array(prefix, *idx, TypeKind::Object))
        },
    }
}

/// Removes the entry named by `path[i..]`'s final segment below a document
/// entry, in place.
pub fn toml_delete_item(item: &mut TomlItem, path: &ValuePath, i: usize, prefix: ValuePath) -> (r:
    Result<(), PathError>)
    requires
        i <= path@.len(),
    ensures
        match r {
            Ok(_) => toml_item_remove(old(item)@, path@.skip(i as int), prefix@) == Ok::<
                TomlItemV,
                PathErrV,
            >(final(item)@),
            Err(e) => toml_item_remove(old(item)@, path@.skip(i as int), prefix@) == Err::<
                TomlItemV,
                PathErrV,
            >(e@) && final(item)@ == old(item)@,
        },
    decreases path@.len() - i, 3int,
{
    let n = path.len();
    if i == n {
        proof {
            assert(path@.skip(i as int) =~= Seq::<SegV>::empty());
        }
        return Err(PathError::EmptyPath);
    }
    let ghost segs = path@.skip(i as int);
    proof {
        assert(segs[0] == path@[i as int]);
        assert(segs.drop_first() =~= path@.skip(i as int + 1));
    }
    match item {
        TomlItem::Table(entries) => {
            proof {
                lemma_toml_table_view(*entries);
            }
            let res = toml_delete_entries(entries, path, i, prefix);
            proof {
                lemma_toml_table_view(*entries);
            }
            res
        },
        TomlItem::Value(v) => {
            let res = toml_delete_value(v, path, i, prefix);
            res
        },
        TomlItem::ArrayOfTables(tables) => {
            proof {
                lemma_toml_aot_view(*tables);
            }
            let ghost old_tables = tables@;
            let ghost old_tv = toml_item_view(TomlItem::ArrayOfTables(*tables))->ArrayOfTables_0;
            match &path.0[i] {
                PathSeg::Index(idx) => {
                    if *idx < tables.len() {
                        if i + 1 == n {
                            let _ = tables.remove(*idx);
                            proof {
                                lemma_toml_aot_view(*tables);
                                let newtv = toml_item_view(
                                    TomlItem::ArrayOfTables(*tables),
                                )->ArrayOfTables_0;
                                let target = old_tv.remove(*idx as int);
                                assert forall|t: int|
                                    0 <= t < newtv.len() implies newtv[t] == target[t] by {
                                    if t < *idx as int {
                                        assert(tables@[t] == old_tables[t]);
                                    } else {
                                        assert(tables@[t] == old_tables[t + 1]);
                                    }
                                }
                                assert(newtv =~= target);
                            }
                            Ok(())
                        } else {
                            let mut prefix2 = prefix;
                            prefix2.push_index(*idx);
                            let inner = &mut tables[*idx];
                            let res = toml_delete_entries(inner, path, i + 1, prefix2);
                            proof {
                                lemma_toml_aot_view(*tables);
                                let newtv = toml_item_view(
                                    TomlItem::ArrayOfTables(*tables),
                                )->ArrayOfTables_0;
                                match res {
                                    Ok(_) => {
                                        let c = toml_entries_view(tables@[*idx as int]@);
                                        let target = old_tv.update(*idx as int, c);
                                        assert forall|t: int|
                                            0 <= t < newtv.len() implies newtv[t] == target[t] by {
                                            if t != *idx as int {
                                                assert(tables@[t] == old_tables[t]);
                                            }
                                        }
                                        assert(newtv =~= target);
                                    },
                                    Err(_) => {
                                        assert forall|t: int|
                                            0 <= t < newtv.len() implies newtv[t] == old_tv[t] by {
                                            if t != *idx as int {
                                                assert(tables@[t] == old_tables[t]);
                                            } else {
                                                assert(toml_entries_view(tables@[t]@)
                                                    == toml_entries_view(old_tables[t]@));
                                            }
                                        }
                                        assert(newtv =~= old_tv);
                                    },
                                }
                            }
                            match res {
                                Ok(_) => Ok(()),
                                Err(e2) => Err(e2),
                            }
                        }
                    } else {
                        Err(PathError::oob(prefix, *idx, tables.len()))
                    }
                },
                PathSeg::Key(k) => {
                    proof {
                        assert(segs[0] == SegV::Key(k@));
                    }
                    Err(PathError::not_object(prefix, k.clone(), TypeKind::Array))
                },
            }
        },
        TomlItem::Absent => {
            match &path.0[i] {
                PathSeg::Key(k) => Err(PathError::not_object(prefix, k.clone(), TypeKind::Null)),
                PathSeg::Index(idx) => Err(PathError::not_array(prefix, *idx, TypeKind::Null)),
            }
        },
    }
}

/// Removes the entry named by `path[i..]`'s final segment below a value,
/// in place.
pub fn toml_delete_value(v: &mut TomlValue, path: &ValuePath, i: usize, prefix: ValuePath) -> (r:
    Result<(), PathError>)
    requires
        i <= path@.len(),
    ensures
        match r {
            Ok(_) => toml_value_remove(old(v)@, path@.skip(i as int), prefix@) == Ok::<
                TomlValueV,
                PathErrV,
            >(final(v)@),
            Err(e) => toml_value_remove(old(v)@, path@.skip(i as int), prefix@) == Err::<
                TomlValueV,
                PathErrV,
            >(e@) && final(v)@ == old(v)@,
        },
    decreases path@.len() - i, 2int,
{
    let n = path.len();
    if i == n {
        proof {
            assert(path@.skip(i as int) =~= Seq::<SegV>::empty());
        }
        return Err(PathError::EmptyPath);
    }
    let ghost segs = path@.skip(i as int);
    proof {
        assert(segs[0] == path@[i as int]);
        assert(segs.drop_first() =~= path@.skip(i as int + 1));
    }
    match &path.0[i] {
        PathSeg::Key(k) => {
            proof {
                assert(segs[0] == SegV::Key(k@));
            }
            match v {
                TomlValue::Inline(entries) => {
                    proof {
                        lemma_toml_inline_view(*entries);
                    }
                    let ghost old_entries = entries@;
                    let ghost old_ev = toml_inline_view(entries@);
                    match toml_inline_scan(entries, k) {
                        Some(j) => {
                            if i + 1 == n {
                                let _ = entries.remove(j);
                                proof {
                                    lemma_toml_inline_view(*entries);
                                    let newv = toml_inline_view(entries@);
                                    let target = old_ev.remove(j as int);
                                    assert forall|t: int|
                                        0 <= t < newv.len() implies newv[t] == target[t] by {
                                        if t < j as int {
                                            assert(entries@[t] == old_entries[t]);
                                        } else {
                                            assert(entries@[t] == old_entries[t + 1]);
                                        }
                                    }
                                    assert(newv =~= target);
                                }
                                Ok(())
                            } else {
                                let mut prefix2 = prefix;
                                prefix2.push_key(k.clone());
                                let e = &mut entries[j];
                                let child = toml_entry_value_mut(e);
                                let res = toml_delete_value(child, path, i + 1, prefix2);
                                proof {
                                    lemma_toml_inline_view(*entries);
                                    assert(old_ev[j as int].1 == toml_value_view(
                                        old_entries[j as int].1,
                                    ));
                                    let newv = toml_inline_view(entries@);
                                    match res {
                                        Ok(_) => {
                                            let c = toml_value_view(entries@[j as int].1);
                                            let target = old_ev.update(
                                                j as int,
                                                (old_ev[j as int].0, c),
                                            );
                                            assert forall|t: int|
                                                0 <= t < newv.len() implies newv[t] == target[t] by {
                                                if t != j as int {
                                                    assert(entries@[t] == old_entries[t]);
                                                }
                                            }
                                            assert(newv =~= target);
                                        },
                                        Err(_) => {
                                            assert forall|t: int|
                                                0 <= t < newv.len() implies newv[t] == old_ev[t] by {
                                                if t != j as int {
                                                    assert(entries@[t] == old_entries[t]);
                                                } else {
                                                    assert(entries@[t].0 == old_entries[t].0);
                                                    assert(toml_value_view(entries@[t].1)
                                                        == toml_value_view(old_entries[t].1));
                                                }
                                            }
                                            assert(newv =~= old_ev);
                                        },
                                    }
                                }
                                match res {
                                    Ok(_) => Ok(()),
                                    Err(e2) => Err(e2),
                                }
                            }
                        },
                        None => Err(PathError::key_not_found(prefix, k.clone())),
                    }
                },
                _ => {
                    let found = TypeKind::from_toml_value(v);
                    Err(PathError::not_object(prefix, k.clone(), found))
                },
            }
        },
        PathSeg::Index(idx) => {
            proof {
                assert(segs[0] == SegV::Index(*idx as int));
            }
            match v {
                TomlValue::Arr(elems) => {
                    proof {
                        lemma_toml_varr_view(*elems);
                    }
                    let ghost old_elems = elems@;
                    let ghost old_ev = toml_varr_view(elems@);
                    if *idx < elems.len() {
                        if i + 1 == n {
                            let _ = elems.remove(*idx);
                            proof {
                                lemma_toml_varr_view(*elems);
                                let newv = toml_varr_view(elems@);
                                let target = old_ev.remove(*idx as int);
                                assert forall|t: int|
                                    0 <= t < newv.len() implies newv[t] == target[t] by {
                                    if t < *idx as int {
                                        assert(elems@[t] == old_elems[t]);
                                    } else {
                                        assert(elems@[t] == old_elems[t + 1]);
                                    }
                                }
                                assert(newv =~= target);
                            }
                            Ok(())
                        } else {
                            let mut prefix2 = prefix;
                            prefix2.push_index(*idx);
                            let child = &mut elems[*idx];
                            let res = toml_delete_value(child, path, i + 1, prefix2);
                            proof {
                                lemma_toml_varr_view(*elems);
                                let newv = toml_varr_view(elems@);
                                match res {
                                    Ok(_) => {
                                        let c = toml_value_view(elems@[*idx as int]);
                                        let target = old_ev.update(*idx as int, c);
                                        assert forall|t: int|
                                            0 <= t < newv.len() implies newv[t] == target[t] by {
                                            if t != *idx as int {
                                                assert(elems@[t] == old_elems[t]);
                                            }
                                        }
                                        assert(newv =~= target);
                                    },
                                    Err(_) => {
                                        assert forall|t: int|
                                            0 <= t < newv.len() implies newv[t] == old_ev[t] by {
                                            if t != *idx as int {
                                                assert(elems@[t] == old_elems[t]);
                                            } else {
                                                assert(toml_value_view(elems@[t])
                                                    == toml_value_view(old_elems[t]));
                                            }
                                        }
                                        assert(newv =~= old_ev);
                                    },
                                }
                            }
                            match res {
                                Ok(_) => Ok(()),
                                Err(e2) => Err(e2),
                            }
                        }
                    } else {
                        Err(PathError::oob(prefix, *idx, elems.len()))
                    }
                },
                _ => {
                    let found = TypeKind::from_toml_value(v);
                    Err(PathError::not_array(prefix, *idx, found))
                },
            }
        },
    }
}

} // verus!

verus! {

// ---------------------------------------------------------------------------
// Listing: the immediate children of the node under a cursor.
// ---------------------------------------------------------------------------

/// The immediate children of a value: keys of an inline table, indices of
/// an array; scalars have none.
pub open spec fn spec_toml_value_children(v: TomlValueV) -> Option<Seq<SegV>> {
    match v {
        TomlValueV::Inline(entries) => Some(
            Seq::new(entries.len(), |i: int| SegV::Key(entries[i].0)),
        ),
        TomlValueV::Arr(elems) => Some(Seq::new(elems.len(), |i: int| SegV::Index(i))),
        _ => None,
    }
}

/// The immediate children of the node under a cursor: keys in document
/// order for tables and inline tables, indices for arrays and arrays of
/// tables; a scalar has none.
pub open spec fn spec_toml_children(at: TomlAtV) -> Option<Seq<SegV>> {
    match at {
        TomlAtV::Item(TomlItemV::Table(entries)) => Some(
            Seq::new(entries.len(), |i: int| SegV::Key(entries[i].0)),
        ),
        TomlAtV::Item(TomlItemV::ArrayOfTables(tables)) => Some(
            Seq::new(tables.len(), |i: int| SegV::Index(i)),
        ),
        TomlAtV::Item(TomlItemV::Value(v)) => spec_toml_value_children(v),
        TomlAtV::Item(TomlItemV::Absent) => None,
        TomlAtV::Value(v) => spec_toml_value_children(v),
        TomlAtV::Table(entries) => Some(
            Seq::new(entries.len(), |i: int| SegV::Key(entries[i].0)),
        ),
    }
}

/// What listing a path yields over a TOML document: the children of the
/// resolved node, or `NotAContainer` with the whole path as prefix.
pub open spec fn spec_toml_list(root: TomlItemV, segs: Seq<SegV>) -> Result<Seq<SegV>, PathErrV> {
    match toml_resolve(root, segs) {
        Err(e) => Err(e),
        Ok(at) => match spec_toml_children(at) {
            Some(cs) => Ok(cs),
            None => Err(PathErrV::NotAContainer { prefix: segs, found: at.kind() }),
        },
    }
}

/// Collects the keys of a table's entries, in order.
fn collect_entry_keys(entries: &Vec<(String, TomlItem)>) -> (r: Vec<PathSeg>)
    ensures
        crate::navigate::segs_view(r@) == Seq::new(
            toml_entries_view(entries@).len(),
            |i: int| SegV::Key(toml_entries_view(entries@)[i].0),
        ),
{
    let mut out: Vec<PathSeg> = Vec::new();
    let mut i: usize = 0;
    while i < entries.len()
        invariant
            i <= entries@.len(),
            out@.len() == i,
            forall|t: int| 0 <= t < i ==> #[trigger] out@[t]@ == SegV::Key(entries@[t].0@),
        decreases entries@.len() - i,
    {
        out.push(PathSeg::Key(entries[i].0.clone()));
        i = i + 1;
    }
    proof {
        assert(crate::navigate::segs_view(out@) =~= Seq::new(
            toml_entries_view(entries@).len(),
            |i: int| SegV::Key(toml_entries_view(entries@)[i].0),
        ));
    }
    out
}

/// Collects the keys of an inline table's entries, in order.
fn collect_inline_keys(entries: &Vec<(String, TomlValue)>) -> (r: Vec<PathSeg>)
    ensures
        crate::navigate::segs_view(r@) == Seq::new(
            toml_inline_view(entries@).len(),
            |i: int| SegV::Key(toml_inline_view(entries@)[i].0),
        ),
{
    let mut out: Vec<PathSeg> = Vec::new();
    let mut i: usize = 0;
    while i < entries.len()
        invariant
            i <= entries@.len(),
            out@.len() == i,
            forall|t: int| 0 <= t < i ==> #[trigger] out@[t]@ == SegV::Key(entries@[t].0@),
        decreases entries@.len() - i,
    {
        out.push(PathSeg::Key(entries[i].0.clone()));
        i = i + 1;
    }
    proof {
        assert(crate::navigate::segs_view(out@) =~= Seq::new(
            toml_inline_view(entries@).len(),
            |i: int| SegV::Key(toml_inline_view(entries@)[i].0),
        ));
    }
    out
}

/// Collects the index segments `0 .. n`.
fn collect_indices(n: usize) -> (r: Vec<PathSeg>)
    ensures
        crate::navigate::segs_view(r@) == Seq::new(n as nat, |i: int| SegV::Index(i)),
{
    let mut out: Vec<PathSeg> = Vec::new();
    let mut i: usize = 0;
    while i < n
        invariant
            i <= n,
            out@.len() == i,
            forall|t: int| 0 <= t < i ==> #[trigger] out@[t]@ == SegV::Index(t),
        decreases n - i,
    {
        out.push(PathSeg::Index(i));
        i = i + 1;
    }
    proof {
        assert(crate::navigate::segs_view(out@) =~= Seq::new(n as nat, |i: int| SegV::Index(i)));
    }
    out
}

/// The children of the node under a cursor, as path segments.
pub fn toml_children(at: &TomlAt) -> (r: Option<Vec<PathSeg>>)
    ensures
        match r {
            Some(cs) => spec_toml_children(at@) == Some(crate::navigate::segs_view(cs@)),
            None => spec_toml_children(at@) is None,
        },
{
    match at {
        TomlAt::Item(item) => match item {
            TomlItem::Table(entries) => {
                proof {
                    lemma_toml_table_view(*entries);
                }
                Some(collect_entry_keys(entries))
            },
            TomlItem::ArrayOfTables(tables) => {
                proof {
                    lemma_toml_aot_view(*tables);
                }
                Some(collect_indices(tables.len()))
            },
            TomlItem::Value(v) => match v {
                TomlValue::Inline(entries) => {
                    proof {
                        lemma_toml_inline_view(*entries);
                    }
                    Some(collect_inline_keys(entries))
                },
                TomlValue::Arr(elems) => {
                    proof {
                        lemma_toml_varr_view(*elems);
                    }
                    Some(collect_indices(elems.len()))
                },
                _ => None,
            },
            TomlItem::Absent => None,
        },
        TomlAt::Value(v) => match v {
            TomlValue::Inline(entries) => {
                proof {
                    lemma_toml_inline_view(*entries);
                }
                Some(collect_inline_keys(entries))
            },
            TomlValue::Arr(elems) => {
                proof {
                    lemma_toml_varr_view(*elems);
                }
                Some(collect_indices(elems.len()))
            },
            _ => None,
        },
        TomlAt::Table(entries) => Some(collect_entry_keys(entries)),
    }
}

/// Lists the immediate children of the node at `path` in a TOML document.
pub fn toml_list(root: &TomlItem, path: &ValuePath) -> (r: Result<Vec<PathSeg>, PathError>)
    ensures
        match r {
            Ok(cs) => spec_toml_list(root@, path@) == Ok::<Seq<SegV>, PathErrV>(
                crate::navigate::segs_view(cs@),
            ),
            Err(e) => spec_toml_list(root@, path@) == Err::<Seq<SegV>, PathErrV>(e@),
        },
{
    match get_toml_at_path(root, path) {
        Err(e) => Err(e),
        Ok(at) => {
            match toml_children(&at) {
                Some(cs) => Ok(cs),
                None => {
                    let found = at.type_kind();
                    Err(PathError::not_container(path.duplicate(), found))
                },
            }
        },
    }
}

} // verus!

verus! {

// ---------------------------------------------------------------------------
// Laws relating resolution, listing and deletion, for this backend.
// ---------------------------------------------------------------------------

proof fn lemma_toml_step_key_child(cur: TomlAtV, k: Seq<char>, prefix: Seq<SegV>)
    requires
        toml_step_key(cur, k, prefix) is Ok,
    ensures
        spec_toml_children(cur) is Some,
        spec_toml_children(cur)->0.contains(SegV::Key(k)),
{
    match cur {
        TomlAtV::Item(TomlItemV::Table(entries)) => {
            let j = obj_find(entries, k);
            crate::navigate::lemma_obj_find_bounds(entries, k);
            let cs = spec_toml_children(cur)->0;
            assert(cs[j] == SegV::Key(entries[j].0));
            assert(cs.contains(SegV::Key(k)));
        },
        TomlAtV::Item(TomlItemV::Value(v)) => match v {
            TomlValueV::Inline(entries) => {
                let j = obj_find(entries, k);
                crate::navigate::lemma_obj_find_bounds(entries, k);
                let cs = spec_toml_children(cur)->0;
                assert(cs[j] == SegV::Key(entries[j].0));
                assert(cs.contains(SegV::Key(k)));
            },
            _ => {},
        },
        TomlAtV::Value(v) => match v {
            TomlValueV::Inline(entries) => {
                let j = obj_find(entries, k);
                crate::navigate::lemma_obj_find_bounds(entries, k);
                let cs = spec_toml_children(cur)->0;
                assert(cs[j] == SegV::Key(entries[j].0));
                assert(cs.contains(SegV::Key(k)));
            },
            _ => {},
        },
        TomlAtV::Table(entries) => {
            let j = obj_find(entries, k);
            crate::navigate::lemma_obj_find_bounds(entries, k);
            let cs = spec_toml_children(cur)->0;
            assert(cs[j] == SegV::Key(entries[j].0));
            assert(cs.contains(SegV::Key(k)));
        },
        TomlAtV::Item(_) => {},
    }
}

proof fn lemma_toml_step_index_child(cur: TomlAtV, i: int, prefix: Seq<SegV>)
    requires
        toml_step_index(cur, i, prefix) is Ok,
    ensures
        spec_toml_children(cur) is Some,
        spec_toml_children(cur)->0.contains(SegV::Index(i)),
{
    match cur {
        TomlAtV::Item(TomlItemV::Value(TomlValueV::Arr(elems))) => {
            let cs = spec_toml_children(cur)->0;
            assert(cs[i] == SegV::Index(i));
            assert(cs.contains(SegV::Index(i)));
        },
        TomlAtV::Value(TomlValueV::Arr(elems)) => {
            let cs = spec_toml_children(cur)->0;
            assert(cs[i] == SegV::Index(i));
            assert(cs.contains(SegV::Index(i)));
        },
        TomlAtV::Item(TomlItemV::ArrayOfTables(tables)) => {
            let cs = spec_toml_children(cur)->0;
            assert(cs[i] == SegV::Index(i));
            assert(cs.contains(SegV::Index(i)));
        },
        _ => {},
    }
}

proof fn lemma_toml_list_contains_aux(cur: TomlAtV, segs: Seq<SegV>, prefix: Seq<SegV>, at: TomlAtV)
    requires
        segs.len() >= 1,
        toml_resolve_from(cur, segs, prefix) == Ok::<TomlAtV, PathErrV>(at),
    ensures
        toml_resolve_from(cur, segs.drop_last(), prefix) is Ok,
        ({
            let parent = toml_resolve_from(cur, segs.drop_last(), prefix)->Ok_0;
            spec_toml_children(parent) is Some && spec_toml_children(parent)->0.contains(
                segs.last(),
            )
        }),
    decreases segs.len(),
{
    if segs.len() == 1 {
        assert(segs.drop_last() =~= Seq::<SegV>::empty());
        match segs[0] {
            SegV::Key(k) => {
                lemma_toml_step_key_child(cur, k, prefix);
            },
            SegV::Index(i) => {
                lemma_toml_step_index_child(cur, i, prefix);
            },
        }
    } else {
        assert(segs.drop_last()[0] == segs[0]);
        assert(segs.drop_last().drop_first() =~= segs.drop_first().drop_last());
        assert(segs.drop_first().last() == segs.last());
        let step = match segs[0] {
            SegV::Key(k) => toml_step_key(cur, k, prefix),
            SegV::Index(i) => toml_step_index(cur, i, prefix),
        };
        let next = step->Ok_0;
        lemma_toml_list_contains_aux(next, segs.drop_first(), prefix.push(segs[0]), at);
    }
}

/// Law: when a path resolves in a TOML document, listing the path's
/// parent includes the path's final segment among its results.  For a
/// one-segment path the parent is the document root itself.
pub proof fn lemma_list_contains_resolved_child_toml(root: TomlItemV, segs: Seq<SegV>, at: TomlAtV)
    requires
        segs.len() >= 1,
        toml_resolve(root, segs) == Ok::<TomlAtV, PathErrV>(at),
    ensures
        segs.len() == 1 ==> spec_toml_children(TomlAtV::Item(root)) is Some && spec_toml_children(
            TomlAtV::Item(root),
        )->0.contains(segs.last()),
        segs.len() > 1 ==> spec_toml_list(root, segs.drop_last()) is Ok && spec_toml_list(
            root,
            segs.drop_last(),
        )->Ok_0.contains(segs.last()),
{
    lemma_toml_list_contains_aux(TomlAtV::Item(root), segs, Seq::empty(), at);
}

} // verus!

verus! {

// ---------------------------------------------------------------------------
// Well-formedness of a TOML tree: table and inline-table keys are unique,
// recursively.  Parsed documents have this shape, because TOML refuses
// duplicate keys.
// ---------------------------------------------------------------------------

pub open spec fn toml_entries_wf(entries: Seq<(Seq<char>, TomlItemV)>) -> bool
    decreases entries,
{
    &&& forall|i: int, j: int|
        0 <= i < j < entries.len() ==> (#[trigger] entries[i]).0 != (#[trigger] entries[j]).0
    &&& forall|i: int| 0 <= i < entries.len() ==> toml_item_wf((#[trigger] entries[i]).1)
}

pub open spec fn toml_item_wf(item: TomlItemV) -> bool
    decreases item,
{
    match item {
        TomlItemV::Absent => true,
        TomlItemV::Value(v) => toml_value_wf(v),
        TomlItemV::Table(entries) => toml_entries_wf(entries),
        TomlItemV::ArrayOfTables(tables) => forall|i: int|
            0 <= i < tables.len() ==> toml_entries_wf(#[trigger] tables[i]),
    }
}

pub open spec fn toml_value_wf(v: TomlValueV) -> bool
    decreases v,
{
    match v {
        TomlValueV::Inline(entries) => (forall|i: int, j: int|
            0 <= i < j < entries.len() ==> (#[trigger] entries[i]).0 != (#[trigger] entries[j]).0)
            && (forall|i: int| 0 <= i < entries.len() ==> toml_value_wf((#[trigger] entries[i]).1)),
        TomlValueV::Arr(elems) => forall|i: int|
            0 <= i < elems.len() ==> toml_value_wf(#[trigger] elems[i]),
        _ => true,
    }
}

// ---------------------------------------------------------------------------
// Deleting the same key-ended path twice: the second run fails with
// `KeyNotFound` at the same place.
// ---------------------------------------------------------------------------

proof fn lemma_toml_del_twice_entries(
    entries: Seq<(Seq<char>, TomlItemV)>,
    segs: Seq<SegV>,
    prefix: Seq<SegV>,
    out: Seq<(Seq<char>, TomlItemV)>,
)
    requires
        toml_entries_wf(entries),
        segs.len() >= 1,
        segs.last() is Key,
        toml_entries_remove(entries, segs, prefix) == Ok::<Seq<(Seq<char>, TomlItemV)>, PathErrV>(
            out,
        ),
    ensures
        toml_entries_remove(out, segs, prefix) == Err::<Seq<(Seq<char>, TomlItemV)>, PathErrV>(
            PathErrV::KeyNotFound { prefix: prefix + segs.drop_last(), key: segs.last()->Key_0 },
        ),
    decreases segs.len(), 1int,
{
    let k = segs[0]->Key_0;
    let j = obj_find(entries, k);
    crate::navigate::lemma_obj_find_bounds(entries, k);
    crate::navigate::lemma_obj_find_first(entries, k);
    if segs.len() == 1 {
        assert forall|t: int| 0 <= t < out.len() implies (#[trigger] out[t]).0 != k by {
            if t < j {
                assert(out[t] == entries[t]);
            } else {
                assert(out[t] == entries[t + 1]);
                assert(entries[j].0 == k);
            }
        }
        crate::navigate::lemma_obj_find_is(out, k, out.len() as int);
        assert(prefix + segs.drop_last() =~= prefix);
    } else {
        let c = toml_item_remove(entries[j].1, segs.drop_first(), prefix.push(segs[0]))->Ok_0;
        assert(toml_item_wf(entries[j].1));
        assert(segs.drop_first().last() == segs.last());
        lemma_toml_del_twice_item(entries[j].1, segs.drop_first(), prefix.push(segs[0]), c);
        assert forall|t: int| 0 <= t < j implies (#[trigger] out[t]).0 != k by {
            assert(out[t] == entries[t]);
        }
        assert(out[j].0 == k);
        crate::navigate::lemma_obj_find_is(out, k, j);
        assert(prefix.push(segs[0]) + segs.drop_first().drop_last() =~= prefix + segs.drop_last());
    }
}

proof fn lemma_toml_del_twice_item(item: TomlItemV, segs: Seq<SegV>, prefix: Seq<SegV>, out: TomlItemV)
    requires
        toml_item_wf(item),
        segs.len() >= 1,
        segs.last() is Key,
        toml_item_remove(item, segs, prefix) == Ok::<TomlItemV, PathErrV>(out),
    ensures
        toml_item_remove(out, segs, prefix) == Err::<TomlItemV, PathErrV>(
            PathErrV::KeyNotFound { prefix: prefix + segs.drop_last(), key: segs.last()->Key_0 },
        ),
    decreases segs.len(), 3int,
{
    match item {
        TomlItemV::Table(entries) => {
            let es = toml_entries_remove(entries, segs, prefix)->Ok_0;
            lemma_toml_del_twice_entries(entries, segs, prefix, es);
        },
        TomlItemV::Value(v) => {
            let w = toml_value_remove(v, segs, prefix)->Ok_0;
            lemma_toml_del_twice_value(v, segs, prefix, w);
        },
        TomlItemV::ArrayOfTables(tables) => {
            let i = segs[0]->Index_0;
            assert(segs.len() > 1) by {
                if segs.len() == 1 {
                    assert(segs.last() == segs[0]);
                }
            }
            let es = toml_entries_remove(tables[i], segs.drop_first(), prefix.push(segs[0]))->Ok_0;
            assert(toml_entries_wf(tables[i]));
            assert(segs.drop_first().last() == segs.last());
            lemma_toml_del_twice_entries(tables[i], segs.drop_first(), prefix.push(segs[0]), es);
            assert(tables.update(i, es)[i] == es);
            assert(prefix.push(segs[0]) + segs.drop_first().drop_last() =~= prefix
                + segs.drop_last());
        },
        TomlItemV::Absent => {},
    }
}

proof fn lemma_toml_del_twice_value(v: TomlValueV, segs: Seq<SegV>, prefix: Seq<SegV>, out: TomlValueV)
    requires
        toml_value_wf(v),
        segs.len() >= 1,
        segs.last() is Key,
        toml_value_remove(v, segs, prefix) == Ok::<TomlValueV, PathErrV>(out),
    ensures
        toml_value_remove(out, segs, prefix) == Err::<TomlValueV, PathErrV>(
            PathErrV::KeyNotFound { prefix: prefix + segs.drop_last(), key: segs.last()->Key_0 },
        ),
    decreases segs.len(), 2int,
{
    match v {
        TomlValueV::Inline(entries) => {
            let k = segs[0]->Key_0;
            let j = obj_find(entries, k);
            crate::navigate::lemma_obj_find_bounds(entries, k);
            crate::navigate::lemma_obj_find_first(entries, k);
            if segs.len() == 1 {
                let remaining = entries.remove(j);
                assert(out == TomlValueV::Inline(remaining));
                assert forall|t: int| 0 <= t < remaining.len() implies (#[trigger] remaining[t]).0
                    != k by {
                    if t < j {
                        assert(remaining[t] == entries[t]);
                    } else {
                        assert(remaining[t] == entries[t + 1]);
                        assert(entries[j].0 == k);
                    }
                }
                crate::navigate::lemma_obj_find_is(remaining, k, remaining.len() as int);
                assert(prefix + segs.drop_last() =~= prefix);
            } else {
                let w = toml_value_remove(entries[j].1, segs.drop_first(), prefix.push(segs[0]))->Ok_0;
                assert(toml_value_wf(entries[j].1));
                assert(segs.drop_first().last() == segs.last());
                lemma_toml_del_twice_value(entries[j].1, segs.drop_first(), prefix.push(segs[0]), w);
                let updated = entries.update(j, (entries[j].0, w));
                assert(out == TomlValueV::Inline(updated));
                assert forall|t: int| 0 <= t < j implies (#[trigger] updated[t]).0 != k by {
                    assert(updated[t] == entries[t]);
                }
                assert(updated[j].0 == k);
                crate::navigate::lemma_obj_find_is(updated, k, j);
                assert(prefix.push(segs[0]) + segs.drop_first().drop_last() =~= prefix
                    + segs.drop_last());
            }
        },
        TomlValueV::Arr(elems) => {
            let i = segs[0]->Index_0;
            assert(segs.len() > 1) by {
                if segs.len() == 1 {
                    assert(segs.last() == segs[0]);
                }
            }
            let w = toml_value_remove(elems[i], segs.drop_first(), prefix.push(segs[0]))->Ok_0;
            assert(toml_value_wf(elems[i]));
            assert(segs.drop_first().last() == segs.last());
            lemma_toml_del_twice_value(elems[i], segs.drop_first(), prefix.push(segs[0]), w);
            assert(elems.update(i, w)[i] == w);
            assert(prefix.push(segs[0]) + segs.drop_first().drop_last() =~= prefix
                + segs.drop_last());
        },
        _ => {},
    }
}

/// Law: deleting a key-ended path in a well-formed TOML document succeeds
/// once; deleting the same path again fails with `KeyNotFound` carrying
/// that path's parent as prefix.  (As for the JSON backend, an index-ended
/// path can resolve again after a deletion, because later siblings shift
/// down.)
pub proof fn lemma_delete_twice_key_toml(root: TomlItemV, segs: Seq<SegV>, out: TomlItemV)
    requires
        toml_item_wf(root),
        segs.len() >= 1,
        segs.last() is Key,
        toml_delete(root, segs) == Ok::<TomlItemV, PathErrV>(out),
    ensures
        toml_delete(out, segs) == Err::<TomlItemV, PathErrV>(
            PathErrV::KeyNotFound { prefix: segs.drop_last(), key: segs.last()->Key_0 },
        ),
{
    lemma_toml_del_twice_item(root, segs, Seq::empty(), out);
    assert(Seq::<SegV>::empty() + segs.drop_last() =~= segs.drop_last());
}

} // verus!

verus! {

// ---------------------------------------------------------------------------
// Replacement succeeds exactly where resolution lands on a replaceable
// node: everywhere but an element of an array of tables, which only a
// table can stand in for.
// ---------------------------------------------------------------------------

proof fn lemma_toml_entries_replace_ok(
    entries: Seq<(Seq<char>, TomlItemV)>,
    segs: Seq<SegV>,
    prefix: Seq<SegV>,
    nv: TomlValueV,
)
    requires
        toml_resolve_from(TomlAtV::Table(entries), segs, prefix) matches Ok(at) && !(at is Table),
    ensures
        toml_entries_replace(entries, segs, prefix, nv) is Ok,
    decreases segs.len(), 1int,
{
    assert(segs.len() > 0);
    match segs[0] {
        SegV::Key(k) => {
            let j = obj_find(entries, k);
            crate::navigate::lemma_obj_find_bounds(entries, k);
            lemma_toml_item_replace_ok(entries[j].1, segs.drop_first(), prefix.push(segs[0]), nv);
        },
        SegV::Index(_) => {},
    }
}

proof fn lemma_toml_item_replace_ok(item: TomlItemV, segs: Seq<SegV>, prefix: Seq<SegV>, nv: TomlValueV)
    requires
        toml_resolve_from(TomlAtV::Item(item), segs, prefix) matches Ok(at) && !(at is Table),
    ensures
        toml_item_replace(item, segs, prefix, nv) is Ok,
    decreases segs.len(), 3int,
{
    if segs.len() == 0 {
    } else {
        match item {
            TomlItemV::Table(entries) => {
                // A key step from an item-level table and from a table
                // cursor take the same branch.
                let at = toml_resolve_from(TomlAtV::Item(item), segs, prefix)->Ok_0;
                assert(toml_resolve_from(TomlAtV::Table(entries), segs, prefix) == Ok::<
                    TomlAtV,
                    PathErrV,
                >(at)) by {
                    match segs[0] {
                        SegV::Key(k) => {
                            assert(toml_step_key(TomlAtV::Item(item), k, prefix) == toml_step_key(
                                TomlAtV::Table(entries),
                                k,
                                prefix,
                            ));
                        },
                        SegV::Index(i) => {},
                    }
                }
                lemma_toml_entries_replace_ok(entries, segs, prefix, nv);
            },
            TomlItemV::Value(v) => {
                let at = toml_resolve_from(TomlAtV::Item(item), segs, prefix)->Ok_0;
                assert(toml_resolve_from(TomlAtV::Value(v), segs, prefix) == Ok::<
                    TomlAtV,
                    PathErrV,
                >(at)) by {
                    match segs[0] {
                        SegV::Key(k) => {
                            assert(toml_step_key(TomlAtV::Item(item), k, prefix) == toml_step_key(
                                TomlAtV::Value(v),
                                k,
                                prefix,
                            ));
                        },
                        SegV::Index(i) => {
                            assert(toml_step_index(TomlAtV::Item(item), i, prefix)
                                == toml_step_index(TomlAtV::Value(v), i, prefix));
                        },
                    }
                }
                lemma_toml_value_replace_ok(v, segs, prefix, nv);
            },
            TomlItemV::ArrayOfTables(tables) => {
                match segs[0] {
                    SegV::Index(i) => {
                        if segs.len() == 1 {
                            // The cursor would be the table element itself,
                            // which the hypothesis excludes.
                            assert(toml_resolve_from(
                                TomlAtV::Table(tables[i]),
                                segs.drop_first(),
                                prefix.push(segs[0]),
                            ) == Ok::<TomlAtV, PathErrV>(TomlAtV::Table(tables[i])));
                        } else {
                            lemma_toml_entries_replace_ok(
                                tables[i],
                                segs.drop_first(),
                                prefix.push(segs[0]),
                                nv,
                            );
                        }
                    },
                    SegV::Key(_) => {},
                }
            },
            TomlItemV::Absent => {},
        }
    }
}

proof fn lemma_toml_value_replace_ok(v: TomlValueV, segs: Seq<SegV>, prefix: Seq<SegV>, nv: TomlValueV)
    requires
        toml_resolve_from(TomlAtV::Value(v), segs, prefix) matches Ok(at) && !(at is Table),
    ensures
        toml_value_replace(v, segs, prefix, nv) is Ok,
    decreases segs.len(), 2int,
{
    if segs.len() == 0 {
    } else {
        match segs[0] {
            SegV::Key(k) => match v {
                TomlValueV::Inline(entries) => {
                    let j = obj_find(entries, k);
                    crate::navigate::lemma_obj_find_bounds(entries, k);
                    lemma_toml_value_replace_ok(
                        entries[j].1,
                        segs.drop_first(),
                        prefix.push(segs[0]),
                        nv,
                    );
                },
                _ => {},
            },
            SegV::Index(i) => match v {
                TomlValueV::Arr(elems) => {
                    lemma_toml_value_replace_ok(
                        elems[i],
                        segs.drop_first(),
                        prefix.push(segs[0]),
                        nv,
                    );
                },
                _ => {},
            },
        }
    }
}

/// Law: wherever resolution succeeds and does not land on an element of
/// an array of tables, replacement succeeds too.  With the type check in
/// front of it — a replacement value's kind is never `Object`, so a
/// matching target is never such an element — this is the success half
/// of the set operation's type-check law.
pub proof fn lemma_toml_replace_succeeds(root: TomlItemV, segs: Seq<SegV>, nv: TomlValueV)
    requires
        toml_resolve(root, segs) matches Ok(at) && !(at is Table),
    ensures
        toml_item_replace(root, segs, Seq::empty(), nv) is Ok,
{
    lemma_toml_item_replace_ok(root, segs, Seq::empty(), nv);
}

} // verus!
