use vstd::prelude::*;
use crate::model::{JsonNode, JsonV, json_view};
use crate::paths::{PathSeg, SegV, ValuePath};
use crate::errors::path::{PathError, PathErrV};

verus! {

// ---------------------------------------------------------------------------
// Resolution over the JSON tree.
// ---------------------------------------------------------------------------

/// Index of the first entry with key `k`, or -1 when there is none.
pub open spec fn obj_find<T>(entries: Seq<(Seq<char>, T)>, k: Seq<char>) -> int
    decreases entries.len(),
{
    if entries.len() == 0 {
        -1
    } else if entries[0].0 == k {
        0
    } else {
        let r = obj_find(entries.drop_first(), k);
        if r < 0 {
            -1
        } else {
            1 + r
        }
    }
}

pub proof fn lemma_obj_find_bounds<T>(entries: Seq<(Seq<char>, T)>, k: Seq<char>)
    ensures
        -1 <= obj_find(entries, k) < entries.len(),
        obj_find(entries, k) >= 0 ==> entries[obj_find(entries, k)].0 == k,
    decreases entries.len(),
{
    if entries.len() > 0 && entries[0].0 != k {
        lemma_obj_find_bounds(entries.drop_first(), k);
    }
}

/// A scan that misses the first `j` entries and hits at `j` (or runs out)
/// has found exactly `obj_find`.
pub proof fn lemma_obj_find_is<T>(entries: Seq<(Seq<char>, T)>, k: Seq<char>, j: int)
    requires
        0 <= j <= entries.len(),
        forall|t: int| 0 <= t < j ==> (#[trigger] entries[t]).0 != k,
        j < entries.len() ==> entries[j].0 == k,
    ensures
        obj_find(entries, k) == if j < entries.len() {
            j
        } else {
            -1
        },
    decreases entries.len(),
{
    if entries.len() > 0 {
        if j == 0 {
            if entries.len() > 0 {
                lemma_obj_find_bounds(entries, k);
            }
        } else {
            assert(entries[0].0 != k);
            assert forall|t: int| 0 <= t < j - 1 implies (#[trigger] entries.drop_first()[t]).0
                != k by {
                assert(entries.drop_first()[t] == entries[t + 1]);
            }
            if j - 1 < entries.drop_first().len() {
                assert(entries.drop_first()[j - 1] == entries[j]);
            }
            lemma_obj_find_is(entries.drop_first(), k, j - 1);
        }
    }
}

/// One resolution walk, carrying the successfully walked `prefix` so that
/// every failure reports exactly how far it got.
pub open spec fn json_resolve_from(v: JsonV, segs: Seq<SegV>, prefix: Seq<SegV>) -> Result<
    JsonV,
    PathErrV,
>
    decreases segs.len(),
{
    if segs.len() == 0 {
        Ok(v)
    } else {
        match segs[0] {
            SegV::Key(k) => match v {
                JsonV::Obj(entries) => {
                    let j = obj_find(entries, k);
                    if j < 0 {
                        Err(PathErrV::KeyNotFound { prefix, key: k })
                    } else {
                        json_resolve_from(entries[j].1, segs.drop_first(), prefix.push(segs[0]))
                    }
                },
                _ => Err(PathErrV::NotAnObject { prefix, key: k, found: v.kind() }),
            },
            SegV::Index(i) => match v {
                JsonV::Arr(elems) => {
                    if 0 <= i < elems.len() {
                        json_resolve_from(elems[i], segs.drop_first(), prefix.push(segs[0]))
                    } else {
                        Err(
                            PathErrV::IndexOutOfBounds {
                                prefix,
                                index: i,
                                len: elems.len() as int,
                            },
                        )
                    }
                },
                _ => Err(PathErrV::NotAnArray { prefix, index: i, found: v.kind() }),
            },
        }
    }
}

/// What resolving a path over a JSON tree yields: the node at the path, or
/// the first failure met on the way.  The empty path is refused outright.
pub open spec fn json_resolve(v: JsonV, segs: Seq<SegV>) -> Result<JsonV, PathErrV> {
    if segs.len() == 0 {
        Err(PathErrV::EmptyPath)
    } else {
        json_resolve_from(v, segs, Seq::empty())
    }
}

/// The entries of a JSON object node, seen abstractly.
pub proof fn lemma_json_obj_view(entries: Vec<(String, JsonNode)>)
    ensures
        json_view(JsonNode::Obj(entries)) matches JsonV::Obj(ev) && ev.len() == entries@.len()
            && forall|i: int|
            0 <= i < entries@.len() ==> #[trigger] ev[i] == (
                entries@[i].0@,
                json_view(entries@[i].1),
            ),
{
}

/// The elements of a JSON array node, seen abstractly.
pub proof fn lemma_json_arr_view(elems: Vec<JsonNode>)
    ensures
        json_view(JsonNode::Arr(elems)) matches JsonV::Arr(ev) && ev.len() == elems@.len()
            && forall|i: int|
            0 <= i < elems@.len() ==> #[trigger] ev[i] == json_view(elems@[i]),
{
}

/// Finds the first entry with the given key.
fn obj_scan(entries: &Vec<(String, JsonNode)>, k: &String) -> (r: Option<usize>)
    ensures
        ({
            let ev = (json_view(JsonNode::Obj(*entries)))->Obj_0;
            match r {
                Some(j) => j < entries@.len() && obj_find(ev, k@) == j as int,
                None => obj_find(ev, k@) == -1,
            }
        }),
{
    proof {
        lemma_json_obj_view(*entries);
    }
    let ghost ev = (json_view(JsonNode::Obj(*entries)))->Obj_0;
    let mut j: usize = 0;
    while j < entries.len()
        invariant
            j <= entries@.len(),
            ev == (json_view(JsonNode::Obj(*entries)))->Obj_0,
            ev.len() == entries@.len(),
            forall|i: int|
                0 <= i < entries@.len() ==> #[trigger] ev[i] == (
                    entries@[i].0@,
                    json_view(entries@[i].1),
                ),
            forall|t: int| 0 <= t < j ==> (#[trigger] ev[t]).0 != k@,
        decreases entries@.len() - j,
    {
        if entries[j].0.eq(k) {
            proof {
                lemma_obj_find_is(ev, k@, j as int);
            }
            return Some(j);
        }
        j = j + 1;
    }
    proof {
        lemma_obj_find_is(ev, k@, entries@.len() as int);
    }
    None
}

/// Resolves `path` over a JSON tree, returning the node it names or the
/// first failure, with the prefix that did resolve.
pub fn get_json_at_path<'a>(root: &'a JsonNode, path: &ValuePath) -> (r: Result<
    &'a JsonNode,
    PathError,
>)
    ensures
        match r {
            Ok(node) => json_resolve(root@, path@) == Ok::<JsonV, PathErrV>(node@),
            Err(e) => json_resolve(root@, path@) == Err::<JsonV, PathErrV>(e@),
        },
{
    if path.is_empty() {
        return Err(PathError::EmptyPath);
    }
    let mut cur: &JsonNode = root;
    let mut prefix = ValuePath::new();
    let n = path.len();
    let mut i: usize = 0;
    proof {
        assert(path@.skip(0) =~= path@);
    }
    while i < n
        invariant
            n == path@.len(),
            0 < n,
            i <= n,
            json_resolve(root@, path@) == json_resolve_from(cur@, path@.skip(i as int), prefix@),
        decreases n - i,
    {
        let ghost segs = path@.skip(i as int);
        proof {
            assert(segs[0] == path@[i as int]);
            assert(segs.drop_first() =~= path@.skip(i as int + 1));
        }
        match &path.0[i] {
            PathSeg::Key(k) => {
                match cur {
                    JsonNode::Obj(entries) => {
                        proof {
                            lemma_json_obj_view(*entries);
                        }
                        match obj_scan(entries, k) {
                            Some(j) => {
                                cur = &entries[j].1;
                                prefix.push_key(k.clone());
                            },
                            None => {
                                return Err(PathError::key_not_found(prefix, k.clone()));
                            },
                        }
                    },
                    _ => {
                        let found = crate::kinds::TypeKind::from_json(cur);
                        return Err(PathError::not_object(prefix, k.clone(), found));
                    },
                }
            },
            PathSeg::Index(idx) => {
                match cur {
                    JsonNode::Arr(elems) => {
                        proof {
                            lemma_json_arr_view(*elems);
                        }
                        if *idx < elems.len() {
                            cur = &elems[*idx];
                            prefix.push_index(*idx);
                        } else {
                            return Err(PathError::oob(prefix, *idx, elems.len()));
                        }
                    },
                    _ => {
                        let found = crate::kinds::TypeKind::from_json(cur);
                        return Err(PathError::not_array(prefix, *idx, found));
                    },
                }
            },
        }
        i = i + 1;
    }
    proof {
        assert(path@.skip(n as int) =~= Seq::<SegV>::empty());
    }
    Ok(cur)
}

} // verus!

verus! {

// ---------------------------------------------------------------------------
// Well-formedness of a JSON tree: object keys are unique, recursively.
// ---------------------------------------------------------------------------

pub open spec fn json_wf(v: JsonV) -> bool
    decreases v,
{
    match v {
        JsonV::Arr(elems) => forall|i: int| 0 <= i < elems.len() ==> json_wf(#[trigger] elems[i]),
        JsonV::Obj(entries) => (forall|i: int, j: int|
            0 <= i < j < entries.len() ==> (#[trigger] entries[i]).0 != (#[trigger] entries[j]).0)
            && (forall|i: int| 0 <= i < entries.len() ==> json_wf((#[trigger] entries[i]).1)),
        _ => true,
    }
}

// ---------------------------------------------------------------------------
// Replacement: walk the path and substitute the node it names.
// ---------------------------------------------------------------------------

/// Replaces the node at `segs` below `v` with `nv`.  Fails exactly where
/// resolution fails, with the same error.
pub open spec fn json_replace_from(v: JsonV, segs: Seq<SegV>, prefix: Seq<SegV>, nv: JsonV) -> Result<
    JsonV,
    PathErrV,
>
    decreases segs.len(),
{
    if segs.len() == 0 {
        Ok(nv)
    } else {
        match segs[0] {
            SegV::Key(k) => match v {
                JsonV::Obj(entries) => {
                    let j = obj_find(entries, k);
                    if j < 0 {
                        Err(PathErrV::KeyNotFound { prefix, key: k })
                    } else {
                        match json_replace_from(
                            entries[j].1,
                            segs.drop_first(),
                            prefix.push(segs[0]),
                            nv,
                        ) {
                            Ok(c) => Ok(JsonV::Obj(entries.update(j, (entries[j].0, c)))),
                            Err(e) => Err(e),
                        }
                    }
                },
                _ => Err(PathErrV::NotAnObject { prefix, key: k, found: v.kind() }),
            },
            SegV::Index(i) => match v {
                JsonV::Arr(elems) => {
                    if 0 <= i < elems.len() {
                        match json_replace_from(
                            elems[i],
                            segs.drop_first(),
                            prefix.push(segs[0]),
                            nv,
                        ) {
                            Ok(c) => Ok(JsonV::Arr(elems.update(i, c))),
                            Err(e) => Err(e),
                        }
                    } else {
                        Err(
                            PathErrV::IndexOutOfBounds {
                                prefix,
                                index: i,
                                len: elems.len() as int,
                            },
                        )
                    }
                },
                _ => Err(PathErrV::NotAnArray { prefix, index: i, found: v.kind() }),
            },
        }
    }
}

/// Replacement over a whole path; the empty path is refused.
pub open spec fn json_replace(v: JsonV, segs: Seq<SegV>, nv: JsonV) -> Result<JsonV, PathErrV> {
    if segs.len() == 0 {
        Err(PathErrV::EmptyPath)
    } else {
        json_replace_from(v, segs, Seq::empty(), nv)
    }
}

/// Replacement fails exactly where resolution fails, with the same error.
pub proof fn lemma_replace_resolve(v: JsonV, segs: Seq<SegV>, prefix: Seq<SegV>, nv: JsonV)
    ensures
        json_replace_from(v, segs, prefix, nv) is Ok <==> json_resolve_from(v, segs, prefix) is Ok,
        json_replace_from(v, segs, prefix, nv) is Err ==> json_replace_from(v, segs, prefix, nv)->Err_0
            == json_resolve_from(v, segs, prefix)->Err_0,
    decreases segs.len(),
{
    if segs.len() > 0 {
        match segs[0] {
            SegV::Key(k) => match v {
                JsonV::Obj(entries) => {
                    let j = obj_find(entries, k);
                    if j >= 0 {
                        lemma_replace_resolve(
                            entries[j].1,
                            segs.drop_first(),
                            prefix.push(segs[0]),
                            nv,
                        );
                    }
                },
                _ => {},
            },
            SegV::Index(i) => match v {
                JsonV::Arr(elems) => {
                    if 0 <= i < elems.len() {
                        lemma_replace_resolve(elems[i], segs.drop_first(), prefix.push(segs[0]), nv);
                    }
                },
                _ => {},
            },
        }
    }
}

// ---------------------------------------------------------------------------
// Removal: walk to the parent of the final segment and delete the entry.
// ---------------------------------------------------------------------------

/// Removes the entry named by the last of `segs` from its parent.  A
/// missing key or index is an error, never a silent no-op.
pub open spec fn json_remove_from(v: JsonV, segs: Seq<SegV>, prefix: Seq<SegV>) -> Result<
    JsonV,
    PathErrV,
>
    decreases segs.len(),
{
    if segs.len() == 0 {
        Err(PathErrV::EmptyPath)
    } else if segs.len() == 1 {
        match segs[0] {
            SegV::Key(k) => match v {
                JsonV::Obj(entries) => {
                    let j = obj_find(entries, k);
                    if j < 0 {
                        Err(PathErrV::KeyNotFound { prefix, key: k })
                    } else {
                        Ok(JsonV::Obj(entries.remove(j)))
                    }
                },
                _ => Err(PathErrV::NotAnObject { prefix, key: k, found: v.kind() }),
            },
            SegV::Index(i) => match v {
                JsonV::Arr(elems) => {
                    if 0 <= i < elems.len() {
                        Ok(JsonV::Arr(elems.remove(i)))
                    } else {
                        Err(
                            PathErrV::IndexOutOfBounds {
                                prefix,
                                index: i,
                                len: elems.len() as int,
                            },
                        )
                    }
                },
                _ => Err(PathErrV::NotAnArray { prefix, index: i, found: v.kind() }),
            },
        }
    } else {
        match segs[0] {
            SegV::Key(k) => match v {
                JsonV::Obj(entries) => {
                    let j = obj_find(entries, k);
                    if j < 0 {
                        Err(PathErrV::KeyNotFound { prefix, key: k })
                    } else {
                        match json_remove_from(
                            entries[j].1,
                            segs.drop_first(),
                            prefix.push(segs[0]),
                        ) {
                            Ok(c) => Ok(JsonV::Obj(entries.update(j, (entries[j].0, c)))),
                            Err(e) => Err(e),
                        }
                    }
                },
                _ => Err(PathErrV::NotAnObject { prefix, key: k, found: v.kind() }),
            },
            SegV::Index(i) => match v {
                JsonV::Arr(elems) => {
                    if 0 <= i < elems.len() {
                        match json_remove_from(elems[i], segs.drop_first(), prefix.push(segs[0])) {
                            Ok(c) => Ok(JsonV::Arr(elems.update(i, c))),
                            Err(e) => Err(e),
                        }
                    } else {
                        Err(
                            PathErrV::IndexOutOfBounds {
                                prefix,
                                index: i,
                                len: elems.len() as int,
                            },
                        )
                    }
                },
                _ => Err(PathErrV::NotAnArray { prefix, index: i, found: v.kind() }),
            },
        }
    }
}

/// Removal over a whole path; the empty path is refused.
pub open spec fn json_delete(v: JsonV, segs: Seq<SegV>) -> Result<JsonV, PathErrV> {
    json_remove_from(v, segs, Seq::empty())
}

} // verus!

verus! {

/// Mutable access to the value half of an object entry.
fn entry_value_mut<'a>(e: &'a mut (String, JsonNode)) -> (r: &'a mut JsonNode)
    ensures
        *r == old(e).1,
        *final(e) == (old(e).0, *final(r)),
{
    &mut e.1
}

/// Replaces the node at `path[i..]` below `node` with `nv`, in place.
/// On failure the tree is left exactly as it was.
pub fn json_set_at(node: &mut JsonNode, path: &ValuePath, i: usize, prefix: ValuePath, nv: JsonNode) -> (r: Result<(), PathError>)
    requires
        i <= path@.len(),
    ensures
        match r {
            Ok(_) => json_replace_from(old(node)@, path@.skip(i as int), prefix@, nv@) == Ok::<
                JsonV,
                PathErrV,
            >(final(node)@),
            Err(e) => json_replace_from(old(node)@, path@.skip(i as int), prefix@, nv@) == Err::<
                JsonV,
                PathErrV,
            >(e@) && final(node)@ == old(node)@,
        },
    decreases path@.len() - i,
{
    if i == path.len() {
        *node = nv;
        proof {
            assert(path@.skip(i as int) =~= Seq::<SegV>::empty());
        }
        return Ok(());
    }
    let ghost segs = path@.skip(i as int);
    proof {
        assert(segs[0] == path@[i as int]);
        assert(segs.drop_first() =~= path@.skip(i as int + 1));
    }
    match &path.0[i] {
        PathSeg::Key(k) => {
            proof {
                assert(segs[0] == SegV::Key(k@));
            }
            match node {
                JsonNode::Obj(entries) => {
                    proof {
                        lemma_json_obj_view(*entries);
                    }
                    let ghost old_entries = entries@;
                    let ghost old_ev = (json_view(JsonNode::Obj(*entries)))->Obj_0;
                    match obj_scan(entries, k) {
                        Some(j) => {
                            let mut prefix2 = prefix;
                            prefix2.push_key(k.clone());
                            let e = &mut entries[j];
                            let child = entry_value_mut(e);
                            let res = json_set_at(child, path, i + 1, prefix2, nv);
                            proof {
                                lemma_json_obj_view(*entries);
                                assert(old_ev[j as int].1 == json_view(old_entries[j as int].1));
                                match res {
                                    Ok(_) => {
                                        let c = json_view(entries@[j as int].1);
                                        assert(entries@ =~= old_entries.update(
                                            j as int,
                                            (old_entries[j as int].0, entries@[j as int].1),
                                        ));
                                        let newv = (json_view(JsonNode::Obj(*entries)))->Obj_0;
                                        let target = old_ev.update(
                                            j as int,
                                            (old_ev[j as int].0, c),
                                        );
                                        assert forall|t: int|
                                            0 <= t < newv.len() implies newv[t] == target[t] by {
                                            if t != j as int {
                                                assert(entries@[t] == old_entries[t]);
                                            }
                                        }
                                        assert(newv =~= target);
                                        assert(old(node)@ == JsonV::Obj(old_ev));
                                        assert(json_replace_from(
                                            JsonV::Obj(old_ev),
                                            segs,
                                            prefix@,
                                            nv@,
                                        ) == Ok::<JsonV, PathErrV>(JsonV::Obj(newv)));
                                    },
                                    Err(_) => {
                                        let newv = (json_view(JsonNode::Obj(*entries)))->Obj_0;
                                        assert forall|t: int|
                                            0 <= t < newv.len() implies newv[t] == old_ev[t] by {
                                            if t != j as int {
                                                assert(entries@[t] == old_entries[t]);
                                            } else {
                                                assert(entries@[t].0 == old_entries[t].0);
                                                assert(json_view(entries@[t].1) == json_view(
                                                    old_entries[t].1,
                                                ));
                                            }
                                        }
                                        assert(newv =~= old_ev);
                                    },
                                }
                            }
                            match res {
                                Ok(_) => Ok(()),
                                Err(e2) => Err(e2),
                            }
                        },
                        None => {
                            Err(PathError::key_not_found(prefix, k.clone()))
                        },
                    }
                },
                _ => {
                    let found = crate::kinds::TypeKind::from_json(node);
                    Err(PathError::not_object(prefix, k.clone(), found))
                },
            }
        },
        PathSeg::Index(idx) => {
            proof {
                assert(segs[0] == SegV::Index(*idx as int));
            }
            match node {
                JsonNode::Arr(elems) => {
                    proof {
                        lemma_json_arr_view(*elems);
                    }
                    let ghost old_elems = elems@;
                    let ghost old_ev = (json_view(JsonNode::Arr(*elems)))->Arr_0;
                    if *idx < elems.len() {
                        let mut prefix2 = prefix;
                        prefix2.push_index(*idx);
                        let child = &mut elems[*idx];
                        let res = json_set_at(child, path, i + 1, prefix2, nv);
                        proof {
                            lemma_json_arr_view(*elems);
                            match res {
                                Ok(_) => {
                                    let c = json_view(elems@[*idx as int]);
                                    let newv = (json_view(JsonNode::Arr(*elems)))->Arr_0;
                                    let target = old_ev.update(*idx as int, c);
                                    assert forall|t: int|
                                        0 <= t < newv.len() implies newv[t] == target[t] by {
                                        if t != *idx as int {
                                            assert(elems@[t] == old_elems[t]);
                                        }
                                    }
                                    assert(newv =~= target);
                                    assert(old(node)@ == JsonV::Arr(old_ev));
                                    assert(json_replace_from(
                                        JsonV::Arr(old_ev),
                                        segs,
                                        prefix@,
                                        nv@,
                                    ) == Ok::<JsonV, PathErrV>(JsonV::Arr(newv)));
                                },
                                Err(_) => {
                                    let newv = (json_view(JsonNode::Arr(*elems)))->Arr_0;
                                    assert forall|t: int|
                                        0 <= t < newv.len() implies newv[t] == old_ev[t] by {
                                        if t != *idx as int {
                                            assert(elems@[t] == old_elems[t]);
                                        } else {
                                            assert(json_view(elems@[t]) == json_view(old_elems[t]));
                                        }
                                    }
                                    assert(newv =~= old_ev);
                                },
                            }
                        }
                        match res {
                            Ok(_) => Ok(()),
                            Err(e2) => Err(e2),
                        }
                    } else {
                        Err(PathError::oob(prefix, *idx, elems.len()))
                    }
                },
                _ => {
                    let found = crate::kinds::TypeKind::from_json(node);
                    Err(PathError::not_array(prefix, *idx, found))
                },
            }
        },
    }
}

} // verus!


verus! {

/// Removes the entry named by `path[i..]`'s final segment from its parent
/// below `node`, in place.  On failure the tree is left as it was.
pub fn json_delete_at(node: &mut JsonNode, path: &ValuePath, i: usize, prefix: ValuePath) -> (r:
    Result<(), PathError>)
    requires
        i < path@.len(),
    ensures
        match r {
            Ok(_) => json_remove_from(old(node)@, path@.skip(i as int), prefix@) == Ok::<
                JsonV,
                PathErrV,
            >(final(node)@),
            Err(e) => json_remove_from(old(node)@, path@.skip(i as int), prefix@) == Err::<
                JsonV,
                PathErrV,
            >(e@) && final(node)@ == old(node)@,
        },
    decreases path@.len() - i,
{
    let ghost segs = path@.skip(i as int);
    proof {
        assert(segs[0] == path@[i as int]);
        assert(segs.drop_first() =~= path@.skip(i as int + 1));
    }
    let n = path.len();
    let last = i + 1 == n;
    match &path.0[i] {
        PathSeg::Key(k) => {
            proof {
                assert(segs[0] == SegV::Key(k@));
            }
            match node {
                JsonNode::Obj(entries) => {
                    proof {
                        lemma_json_obj_view(*entries);
                    }
                    let ghost old_entries = entries@;
                    let ghost old_ev = (json_view(JsonNode::Obj(*entries)))->Obj_0;
                    match obj_scan(entries, k) {
                        Some(j) => {
                            if last {
                                let _ = entries.remove(j);
                                proof {
                                    lemma_json_obj_view(*entries);
                                    let newv = (json_view(JsonNode::Obj(*entries)))->Obj_0;
                                    let target = old_ev.remove(j as int);
                                    assert forall|t: int|
                                        0 <= t < newv.len() implies newv[t] == target[t] by {
                                        if t < j as int {
                                            assert(entries@[t] == old_entries[t]);
                                        } else {
                                            assert(entries@[t] == old_entries[t + 1]);
                                        }
                                    }
                                    assert(newv =~= target);
                                }
                                Ok(())
                            } else {
                                let mut prefix2 = prefix;
                                prefix2.push_key(k.clone());
                                let e = &mut entries[j];
                                let child = entry_value_mut(e);
                                let res = json_delete_at(child, path, i + 1, prefix2);
                                proof {
                                    lemma_json_obj_view(*entries);
                                    assert(old_ev[j as int].1 == json_view(
                                        old_entries[j as int].1,
                                    ));
                                    match res {
                                        Ok(_) => {
                                            let c = json_view(entries@[j as int].1);
                                            let newv = (json_view(JsonNode::Obj(*entries)))->Obj_0;
                                            let target = old_ev.update(
                                                j as int,
                                                (old_ev[j as int].0, c),
                                            );
                                            assert forall|t: int|
                                                0 <= t < newv.len() implies newv[t] == target[t] by {
                                                if t != j as int {
                                                    assert(entries@[t] == old_entries[t]);
                                                }
                                            }
                                            assert(newv =~= target);
                                        },
                                        Err(_) => {
                                            let newv = (json_view(JsonNode::Obj(*entries)))->Obj_0;
                                            assert forall|t: int|
                                                0 <= t < newv.len() implies newv[t] == old_ev[t] by {
                                                if t != j as int {
                                                    assert(entries@[t] == old_entries[t]);
                                                } else {
                                                    assert(entries@[t].0 == old_entries[t].0);
                                                    assert(json_view(entries@[t].1) == json_view(
                                                        old_entries[t].1,
                                                    ));
                                                }
                                            }
                                            assert(newv =~= old_ev);
                                        },
                                    }
                                }
                                match res {
                                    Ok(_) => Ok(()),
                                    Err(e2) => Err(e2),
                                }
                            }
                        },
                        None => {
                            Err(PathError::key_not_found(prefix, k.clone()))
                        },
                    }
                },
                _ => {
                    let found = crate::kinds::TypeKind::from_json(node);
                    Err(PathError::not_object(prefix, k.clone(), found))
                },
            }
        },
        PathSeg::Index(idx) => {
            proof {
                assert(segs[0] == SegV::Index(*idx as int));
            }
            match node {
                JsonNode::Arr(elems) => {
                    proof {
                        lemma_json_arr_view(*elems);
                    }
                    let ghost old_elems = elems@;
                    let ghost old_ev = (json_view(JsonNode::Arr(*elems)))->Arr_0;
                    if *idx < elems.len() {
                        if last {
                            let _ = elems.remove(*idx);
                            proof {
                                lemma_json_arr_view(*elems);
                                let newv = (json_view(JsonNode::Arr(*elems)))->Arr_0;
                                let target = old_ev.remove(*idx as int);
                                assert forall|t: int|
                                    0 <= t < newv.len() implies newv[t] == target[t] by {
                                    if t < *idx as int {
                                        assert(elems@[t] == old_elems[t]);
                                    } else {
                                        assert(elems@[t] == old_elems[t + 1]);
                                    }
                                }
                                assert(newv =~= target);
                            }
                            Ok(())
                        } else {
                            let mut prefix2 = prefix;
                            prefix2.push_index(*idx);
                            let child = &mut elems[*idx];
                            let res = json_delete_at(child, path, i + 1, prefix2);
                            proof {
                                lemma_json_arr_view(*elems);
                                match res {
                                    Ok(_) => {
                                        let c = json_view(elems@[*idx as int]);
                                        let newv = (json_view(JsonNode::Arr(*elems)))->Arr_0;
                                        let target = old_ev.update(*idx as int, c);
                                        assert forall|t: int|
                                            0 <= t < newv.len() implies newv[t] == target[t] by {
                                            if t != *idx as int {
                                                assert(elems@[t] == old_elems[t]);
                                            }
                                        }
                                        assert(newv =~= target);
                                    },
                                    Err(_) => {
                                        let newv = (json_view(JsonNode::Arr(*elems)))->Arr_0;
                                        assert forall|t: int|
                                            0 <= t < newv.len() implies newv[t] == old_ev[t] by {
                                            if t != *idx as int {
                                                assert(elems@[t] == old_elems[t]);
                                            } else {
                                                assert(json_view(elems@[t]) == json_view(
                                                    old_elems[t],
                                                ));
                                            }
                                        }
                                        assert(newv =~= old_ev);
                                    },
                                }
                            }
                            match res {
                                Ok(_) => Ok(()),
                                Err(e2) => Err(e2),
                            }
                        }
                    } else {
                        Err(PathError::oob(prefix, *idx, elems.len()))
                    }
                },
                _ => {
                    let found = crate::kinds::TypeKind::from_json(node);
                    Err(PathError::not_array(prefix, *idx, found))
                },
            }
        },
    }
}

} // verus!

verus! {

// ---------------------------------------------------------------------------
// Listing: the immediate children of a container node.
// ---------------------------------------------------------------------------

/// The abstract view of a sequence of path segments.
pub open spec fn segs_view(v: Seq<PathSeg>) -> Seq<SegV> {
    Seq::new(v.len(), |i: int| v[i]@)
}

/// The immediate children of a node: its keys in order, or its indices in
/// order; a scalar has none.
pub open spec fn spec_json_children(v: JsonV) -> Option<Seq<SegV>> {
    match v {
        JsonV::Obj(entries) => Some(Seq::new(entries.len(), |i: int| SegV::Key(entries[i].0))),
        JsonV::Arr(elems) => Some(Seq::new(elems.len(), |i: int| SegV::Index(i))),
        _ => None,
    }
}

/// What listing a path yields: the children of the resolved node, or
/// `NotAContainer` with the whole path as prefix when it is a scalar.
pub open spec fn spec_json_list(v: JsonV, segs: Seq<SegV>) -> Result<Seq<SegV>, PathErrV> {
    match json_resolve(v, segs) {
        Err(e) => Err(e),
        Ok(node) => match spec_json_children(node) {
            Some(cs) => Ok(cs),
            None => Err(PathErrV::NotAContainer { prefix: segs, found: node.kind() }),
        },
    }
}

/// The children of a node as path segments.
pub fn json_children(node: &JsonNode) -> (r: Option<Vec<PathSeg>>)
    ensures
        match r {
            Some(cs) => spec_json_children(node@) == Some(segs_view(cs@)),
            None => spec_json_children(node@) is None,
        },
{
    match node {
        JsonNode::Obj(entries) => {
            proof {
                lemma_json_obj_view(*entries);
            }
            let ghost ev = (json_view(JsonNode::Obj(*entries)))->Obj_0;
            let mut out: Vec<PathSeg> = Vec::new();
            let mut i: usize = 0;
            while i < entries.len()
                invariant
                    i <= entries@.len(),
                    ev == (json_view(JsonNode::Obj(*entries)))->Obj_0,
                    ev.len() == entries@.len(),
                    forall|t: int|
                        0 <= t < entries@.len() ==> #[trigger] ev[t] == (
                            entries@[t].0@,
                            json_view(entries@[t].1),
                        ),
                    out@.len() == i,
                    forall|t: int| 0 <= t < i ==> #[trigger] out@[t]@ == SegV::Key(ev[t].0),
                decreases entries@.len() - i,
            {
                out.push(PathSeg::Key(entries[i].0.clone()));
                i = i + 1;
            }
            proof {
                assert(segs_view(out@) =~= spec_json_children(node@).unwrap());
            }
            Some(out)
        },
        JsonNode::Arr(elems) => {
            proof {
                lemma_json_arr_view(*elems);
            }
            let mut out: Vec<PathSeg> = Vec::new();
            let mut i: usize = 0;
            while i < elems.len()
                invariant
                    i <= elems@.len(),
                    out@.len() == i,
                    forall|t: int| 0 <= t < i ==> #[trigger] out@[t]@ == SegV::Index(t),
                decreases elems@.len() - i,
            {
                out.push(PathSeg::Index(i));
                i = i + 1;
            }
            proof {
                assert(segs_view(out@) =~= spec_json_children(node@).unwrap());
            }
            Some(out)
        },
        _ => None,
    }
}

/// Lists the immediate children of the node at `path`: key segments for an
/// object, index segments for an array; a scalar is `NotAContainer`.
pub fn json_list(root: &JsonNode, path: &ValuePath) -> (r: Result<Vec<PathSeg>, PathError>)
    ensures
        match r {
            Ok(cs) => spec_json_list(root@, path@) == Ok::<Seq<SegV>, PathErrV>(segs_view(cs@)),
            Err(e) => spec_json_list(root@, path@) == Err::<Seq<SegV>, PathErrV>(e@),
        },
{
    match get_json_at_path(root, path) {
        Err(e) => Err(e),
        Ok(node) => {
            match json_children(node) {
                Some(cs) => Ok(cs),
                None => {
                    let found = crate::kinds::TypeKind::from_json(node);
                    Err(PathError::not_container(path.duplicate(), found))
                },
            }
        },
    }
}

} // verus!

verus! {

// ---------------------------------------------------------------------------
// Laws relating resolution, listing and deletion.
// ---------------------------------------------------------------------------

proof fn lemma_list_contains_aux(v: JsonV, segs: Seq<SegV>, prefix: Seq<SegV>, node: JsonV)
    requires
        segs.len() >= 1,
        json_resolve_from(v, segs, prefix) == Ok::<JsonV, PathErrV>(node),
    ensures
        json_resolve_from(v, segs.drop_last(), prefix) is Ok,
        ({
            let parent = json_resolve_from(v, segs.drop_last(), prefix)->Ok_0;
            spec_json_children(parent) is Some && spec_json_children(parent)->0.contains(
                segs.last(),
            )
        }),
    decreases segs.len(),
{
    if segs.len() == 1 {
        assert(segs.drop_last() =~= Seq::<SegV>::empty());
        match segs[0] {
            SegV::Key(k) => match v {
                JsonV::Obj(entries) => {
                    let j = obj_find(entries, k);
                    lemma_obj_find_bounds(entries, k);
                    assert(j >= 0);
                    let cs = spec_json_children(v)->0;
                    assert(cs[j] == SegV::Key(entries[j].0));
                    assert(entries[j].0 == k);
                    assert(cs.contains(segs.last()));
                },
                _ => {},
            },
            SegV::Index(i) => match v {
                JsonV::Arr(elems) => {
                    let cs = spec_json_children(v)->0;
                    assert(cs[i] == SegV::Index(i));
                    assert(cs.contains(segs.last()));
                },
                _ => {},
            },
        }
    } else {
        assert(segs.drop_last()[0] == segs[0]);
        assert(segs.drop_last().drop_first() =~= segs.drop_first().drop_last());
        assert(segs.drop_first().last() == segs.last());
        match segs[0] {
            SegV::Key(k) => match v {
                JsonV::Obj(entries) => {
                    let j = obj_find(entries, k);
                    lemma_obj_find_bounds(entries, k);
                    assert(j >= 0);
                    lemma_list_contains_aux(
                        entries[j].1,
                        segs.drop_first(),
                        prefix.push(segs[0]),
                        node,
                    );
                },
                _ => {},
            },
            SegV::Index(i) => match v {
                JsonV::Arr(elems) => {
                    lemma_list_contains_aux(elems[i], segs.drop_first(), prefix.push(segs[0]), node);
                },
                _ => {},
            },
        }
    }
}

/// Law: when a path resolves in a document, listing the path's parent
/// includes the path's final segment among its results.  For a one-segment
/// path the parent is the document root itself.
pub proof fn lemma_list_contains_resolved_child_json(v: JsonV, segs: Seq<SegV>, node: JsonV)
    requires
        segs.len() >= 1,
        json_resolve(v, segs) == Ok::<JsonV, PathErrV>(node),
    ensures
        segs.len() == 1 ==> spec_json_children(v) is Some && spec_json_children(v)->0.contains(
            segs.last(),
        ),
        segs.len() > 1 ==> spec_json_list(v, segs.drop_last()) is Ok && spec_json_list(
            v,
            segs.drop_last(),
        )->Ok_0.contains(segs.last()),
{
    lemma_list_contains_aux(v, segs, Seq::empty(), node);
}

/// `obj_find` returns the first matching index: everything before it
/// misses.
pub proof fn lemma_obj_find_first<T>(entries: Seq<(Seq<char>, T)>, k: Seq<char>)
    ensures
        forall|t: int| 0 <= t < obj_find(entries, k) ==> (#[trigger] entries[t]).0 != k,
    decreases entries.len(),
{
    lemma_obj_find_bounds(entries, k);
    if entries.len() > 0 && entries[0].0 != k {
        lemma_obj_find_first(entries.drop_first(), k);
        lemma_obj_find_bounds(entries.drop_first(), k);
        assert forall|t: int| 0 <= t < obj_find(entries, k) implies (#[trigger] entries[t]).0
            != k by {
            if t > 0 {
                assert(entries.drop_first()[t - 1] == entries[t]);
            }
        }
    }
}

proof fn lemma_delete_twice_aux(v: JsonV, segs: Seq<SegV>, prefix: Seq<SegV>, v2: JsonV)
    requires
        json_wf(v),
        segs.len() >= 1,
        segs.last() is Key,
        json_remove_from(v, segs, prefix) == Ok::<JsonV, PathErrV>(v2),
    ensures
        json_remove_from(v2, segs, prefix) == Err::<JsonV, PathErrV>(
            PathErrV::KeyNotFound { prefix: prefix + segs.drop_last(), key: segs.last()->Key_0 },
        ),
    decreases segs.len(),
{
    if segs.len() == 1 {
        let k = segs[0]->Key_0;
        match v {
            JsonV::Obj(entries) => {
                let j = obj_find(entries, k);
                lemma_obj_find_bounds(entries, k);
                assert(j >= 0);
                let remaining = entries.remove(j);
                assert(v2 == JsonV::Obj(remaining));
                lemma_obj_find_first(entries, k);
                assert forall|t: int| 0 <= t < remaining.len() implies (#[trigger] remaining[t]).0
                    != k by {
                    if t < j {
                        assert(remaining[t] == entries[t]);
                    } else {
                        assert(remaining[t] == entries[t + 1]);
                        assert(entries[j].0 == k);
                    }
                }
                lemma_obj_find_is(remaining, k, remaining.len() as int);
                assert(prefix + segs.drop_last() =~= prefix);
            },
            _ => {},
        }
    } else {
        assert(segs.drop_first().last() == segs.last());
        match segs[0] {
            SegV::Key(k) => match v {
                JsonV::Obj(entries) => {
                    let j = obj_find(entries, k);
                    lemma_obj_find_bounds(entries, k);
                    assert(j >= 0);
                    assert(json_wf(entries[j].1));
                    let c2 = json_remove_from(
                        entries[j].1,
                        segs.drop_first(),
                        prefix.push(segs[0]),
                    )->Ok_0;
                    lemma_delete_twice_aux(
                        entries[j].1,
                        segs.drop_first(),
                        prefix.push(segs[0]),
                        c2,
                    );
                    let updated = entries.update(j, (entries[j].0, c2));
                    assert(v2 == JsonV::Obj(updated));
                    lemma_obj_find_first(entries, k);
                    assert forall|t: int| 0 <= t < j implies (#[trigger] updated[t]).0 != k by {
                        assert(updated[t] == entries[t]);
                    }
                    assert(updated[j].0 == k);
                    lemma_obj_find_is(updated, k, j);
                    assert(prefix.push(segs[0]) + segs.drop_first().drop_last() =~= prefix
                        + segs.drop_last());
                },
                _ => {},
            },
            SegV::Index(i) => match v {
                JsonV::Arr(elems) => {
                    let c2 = json_remove_from(
                        elems[i],
                        segs.drop_first(),
                        prefix.push(segs[0]),
                    )->Ok_0;
                    assert(json_wf(elems[i]));
                    lemma_delete_twice_aux(elems[i], segs.drop_first(), prefix.push(segs[0]), c2);
                    let updated = elems.update(i, c2);
                    assert(v2 == JsonV::Arr(updated));
                    assert(prefix.push(segs[0]) + segs.drop_first().drop_last() =~= prefix
                        + segs.drop_last());
                },
                _ => {},
            },
        }
    }
}

/// Law: deleting a key-ended path succeeds once; deleting the same path
/// again fails with `KeyNotFound` carrying that path's parent as prefix.
/// (An index-ended path can legitimately resolve again after a deletion,
/// because later siblings shift down to fill the hole.)
pub proof fn lemma_delete_twice_key_json(v: JsonV, segs: Seq<SegV>, v2: JsonV)
    requires
        json_wf(v),
        segs.len() >= 1,
        segs.last() is Key,
        json_delete(v, segs) == Ok::<JsonV, PathErrV>(v2),
    ensures
        json_delete(v2, segs) == Err::<JsonV, PathErrV>(
            PathErrV::KeyNotFound { prefix: segs.drop_last(), key: segs.last()->Key_0 },
        ),
{
    lemma_delete_twice_aux(v, segs, Seq::empty(), v2);
    assert(Seq::<SegV>::empty() + segs.drop_last() =~= segs.drop_last());
}

} // verus!
