use vstd::prelude::*;
use vstd::string::StringSliceAdditionalSpecFns;
use crate::bridge::{json_doc_of, json_text_of, toml_doc_of, json_render_text, toml_render_text};
use crate::errors::ConfigError;
use crate::errors::value_type::TypeError;
use crate::navigate::{json_resolve, json_replace, json_delete};
use crate::navigate_toml::{toml_resolve, toml_delete};
use crate::ops::{load_json, load_toml, set_json, set_toml, delete_json, delete_toml,
    invalid_path_error};
use crate::paths::{ValuePath, parse_path, spec_parse_path};
use crate::values::{infer_value, spec_infer};

verus! {

// ---------------------------------------------------------------------------
// Persistence: parse, mutate, serialize — and the atomic write-back
// protocol, modelled so that its guarantee can be stated and proved.
// The file reads and writes themselves live outside the library; the
// library computes the full new text, and the protocol model says why
// write-to-temp-then-rename never shows a half-written file.
// ---------------------------------------------------------------------------

/// Builds the new JSON file text after setting `path_str` to the value
/// inferred from `value_str`.  Nothing is written here: the caller hands
/// the result to the atomic replace protocol.
pub fn plan_json_set(text: &str, path_str: &str, value_str: &str, coerce: bool) -> (r: Result<
    String,
    ConfigError,
>)
    ensures
        spec_parse_path(path_str@) is None ==> r matches Err(ConfigError::Usage(_)),
        json_doc_of(text@) is None && spec_parse_path(path_str@) is Some ==> r matches Err(
            ConfigError::Parse(_),
        ),
        (match (spec_parse_path(path_str@), json_doc_of(text@)) {
            (Some(segs), Some(doc)) => {
                &&& coerce ==> (r matches Err(ConfigError::NotSupported(_)))
                &&& !coerce ==> (match json_resolve(doc, segs) {
                    Err(pe) => r matches Err(ConfigError::Path(p)) && p@ == pe,
                    Ok(node) => if node.kind() != spec_infer(value_str@).kind() {
                        ({
                            &&& r matches Err(ce)
                            &&& ce matches ConfigError::Type(te)
                            &&& te matches TypeError::TypeMismatch { path: tp, expected, found }
                            &&& tp@ == segs
                            &&& expected == node.kind()
                            &&& found == spec_infer(value_str@).kind()
                        })
                    } else {
                        r matches Ok(out) && out@ == json_text_of(
                            json_replace(doc, segs, spec_infer(value_str@).as_json())->Ok_0,
                        )
                    },
                })
            },
            _ => true,
        }),
{
    let path = match parse_path(path_str) {
        Some(p) => p,
        None => {
            return Err(invalid_path_error(path_str));
        },
    };
    let mut root = match load_json(text) {
        Ok(n) => n,
        Err(e) => {
            return Err(ConfigError::Parse(e));
        },
    };
    let value = infer_value(value_str);
    match set_json(&mut root, &path, value, coerce) {
        Ok(_) => Ok(json_render_text(&root)),
        Err(e) => Err(e),
    }
}

/// Builds the new JSON file text after deleting the node at `path_str`.
pub fn plan_json_delete(text: &str, path_str: &str) -> (r: Result<String, ConfigError>)
    ensures
        spec_parse_path(path_str@) is None ==> r matches Err(ConfigError::Usage(_)),
        json_doc_of(text@) is None && spec_parse_path(path_str@) is Some ==> r matches Err(
            ConfigError::Parse(_),
        ),
        (match (spec_parse_path(path_str@), json_doc_of(text@)) {
            (Some(segs), Some(doc)) => match json_delete(doc, segs) {
                Ok(doc2) => r matches Ok(s) && s@ == json_text_of(doc2),
                Err(pe) => r matches Err(ConfigError::Path(p)) && p@ == pe,
            },
            _ => true,
        }),
{
    let path = match parse_path(path_str) {
        Some(p) => p,
        None => {
            return Err(invalid_path_error(path_str));
        },
    };
    let mut root = match load_json(text) {
        Ok(n) => n,
        Err(e) => {
            return Err(ConfigError::Parse(e));
        },
    };
    match delete_json(&mut root, &path) {
        Ok(_) => Ok(json_render_text(&root)),
        Err(e) => Err(e),
    }
}

/// Builds the new TOML file text after setting `path_str` to the value
/// inferred from `value_str`, preserving all untouched formatting.
pub fn plan_toml_set(text: &str, path_str: &str, value_str: &str, coerce: bool) -> (r: Result<
    String,
    ConfigError,
>)
    requires
        text.spec_bytes().len() < usize::MAX,
    ensures
        spec_parse_path(path_str@) is None ==> r matches Err(ConfigError::Usage(_)),
        toml_doc_of(text@) is None && spec_parse_path(path_str@) is Some ==> r matches Err(
            ConfigError::Parse(_),
        ),
        (match (spec_parse_path(path_str@), toml_doc_of(text@)) {
            (Some(segs), Some(doc)) => {
                &&& coerce ==> (r matches Err(ConfigError::NotSupported(_)))
                &&& !coerce ==> (match toml_resolve(doc, segs) {
                    Err(pe) => r matches Err(ConfigError::Path(p)) && p@ == pe,
                    Ok(at) => if at.kind() != spec_infer(value_str@).kind() {
                        ({
                            &&& r matches Err(ce)
                            &&& ce matches ConfigError::Type(te)
                            &&& te matches TypeError::TypeMismatch { path: tp, expected, found }
                            &&& tp@ == segs
                            &&& expected == at.kind()
                            &&& found == spec_infer(value_str@).kind()
                        })
                    } else {
                        match spec_infer(value_str@).as_toml() {
                            None => r matches Err(ConfigError::NotSupported(_)),
                            Some(nv) => r is Ok,
                        }
                    },
                })
            },
            _ => true,
        }),
{
    let path = match parse_path(path_str) {
        Some(p) => p,
        None => {
            return Err(invalid_path_error(path_str));
        },
    };
    let (mut doc, mut skel) = match load_toml(text) {
        Ok(p) => p,
        Err(e) => {
            return Err(ConfigError::Parse(e));
        },
    };
    let value = infer_value(value_str);
    match set_toml(&mut doc, &mut skel, &path, value, coerce) {
        Ok(_) => Ok(toml_render_text(&doc)),
        Err(e) => Err(e),
    }
}

/// Builds the new TOML file text after deleting the node at `path_str`,
/// preserving all untouched formatting.
pub fn plan_toml_delete(text: &str, path_str: &str) -> (r: Result<String, ConfigError>)
    requires
        text.spec_bytes().len() < usize::MAX,
    ensures
        spec_parse_path(path_str@) is None ==> r matches Err(ConfigError::Usage(_)),
        toml_doc_of(text@) is None && spec_parse_path(path_str@) is Some ==> r matches Err(
            ConfigError::Parse(_),
        ),
        (match (spec_parse_path(path_str@), toml_doc_of(text@)) {
            (Some(segs), Some(doc)) => match toml_delete(doc, segs) {
                Ok(_) => r is Ok,
                Err(pe) => r matches Err(ConfigError::Path(p)) && p@ == pe,
            },
            _ => true,
        }),
{
    let path = match parse_path(path_str) {
        Some(p) => p,
        None => {
            return Err(invalid_path_error(path_str));
        },
    };
    let (mut doc, mut skel) = match load_toml(text) {
        Ok(p) => p,
        Err(e) => {
            return Err(ConfigError::Parse(e));
        },
    };
    match delete_toml(&mut doc, &mut skel, &path) {
        Ok(_) => Ok(toml_render_text(&doc)),
        Err(e) => Err(e),
    }
}

// ---------------------------------------------------------------------------
// The atomic replace protocol.
// ---------------------------------------------------------------------------

/// One step of the write-to-temp-then-rename protocol.
pub enum PersistStep {
    CreateTemp,
    WriteTemp,
    Rename,
}

/// What an observer of the file system sees: the target file's content,
/// and the adjacent temporary file's content while one exists.
pub struct FsView {
    pub target: Seq<char>,
    pub temp: Option<Seq<char>>,
}

/// The effect of one protocol step.  Only the rename touches the target.
pub open spec fn persist_step(fs: FsView, step: PersistStep, new_text: Seq<char>) -> FsView {
    match step {
        PersistStep::CreateTemp => FsView { target: fs.target, temp: Some(Seq::empty()) },
        PersistStep::WriteTemp => FsView { target: fs.target, temp: Some(new_text) },
        PersistStep::Rename => FsView {
            target: match fs.temp {
                Some(t) => t,
                None => fs.target,
            },
            temp: None,
        },
    }
}

/// The effect of a run of steps, first to last.
pub open spec fn persist_run(fs: FsView, steps: Seq<PersistStep>, new_text: Seq<char>) -> FsView
    decreases steps.len(),
{
    if steps.len() == 0 {
        fs
    } else {
        persist_run(persist_step(fs, steps[0], new_text), steps.drop_first(), new_text)
    }
}

/// The full protocol: create the temporary file, write the new text into
/// it, rename it over the target.
pub open spec fn persist_protocol() -> Seq<PersistStep> {
    seq![PersistStep::CreateTemp, PersistStep::WriteTemp, PersistStep::Rename]
}

/// Law (atomicity): a run of the protocol interrupted at any point before
/// the rename leaves the target file byte-for-byte unchanged, and the
/// complete run leaves it holding exactly the new text.  The target is
/// only ever seen in the old state or the new state.
pub proof fn lemma_persist_atomic(fs: FsView, n: int, new_text: Seq<char>)
    requires
        0 <= n <= 3,
    ensures
        n < 3 ==> persist_run(fs, persist_protocol().take(n), new_text).target == fs.target,
        n == 3 ==> persist_run(fs, persist_protocol().take(n), new_text).target == new_text,
{
    let p = persist_protocol();
    let s1 = persist_step(fs, PersistStep::CreateTemp, new_text);
    let s2 = persist_step(s1, PersistStep::WriteTemp, new_text);
    let s3 = persist_step(s2, PersistStep::Rename, new_text);
    if n == 0 {
        assert(p.take(0) =~= Seq::<PersistStep>::empty());
        assert(persist_run(fs, p.take(0), new_text) == fs);
    } else if n == 1 {
        assert(p.take(1) =~= seq![PersistStep::CreateTemp]);
        assert(seq![PersistStep::CreateTemp].drop_first() =~= Seq::<PersistStep>::empty());
        assert(persist_run(fs, seq![PersistStep::CreateTemp], new_text) == persist_run(
            s1,
            seq![PersistStep::CreateTemp].drop_first(),
            new_text,
        ));
        assert(persist_run(fs, p.take(1), new_text) == s1);
    } else if n == 2 {
        assert(p.take(2) =~= seq![PersistStep::CreateTemp, PersistStep::WriteTemp]);
        let q = seq![PersistStep::CreateTemp, PersistStep::WriteTemp];
        assert(q.drop_first() =~= seq![PersistStep::WriteTemp]);
        assert(seq![PersistStep::WriteTemp].drop_first() =~= Seq::<PersistStep>::empty());
        assert(persist_run(fs, q, new_text) == persist_run(s1, q.drop_first(), new_text));
        assert(persist_run(s1, seq![PersistStep::WriteTemp], new_text) == persist_run(
            s2,
            seq![PersistStep::WriteTemp].drop_first(),
            new_text,
        ));
        assert(persist_run(fs, p.take(2), new_text) == s2);
    } else {
        assert(p.take(3) =~= p);
        assert(p.drop_first() =~= seq![PersistStep::WriteTemp, PersistStep::Rename]);
        let q = seq![PersistStep::WriteTemp, PersistStep::Rename];
        assert(q.drop_first() =~= seq![PersistStep::Rename]);
        assert(seq![PersistStep::Rename].drop_first() =~= Seq::<PersistStep>::empty());
        assert(p[0] == PersistStep::CreateTemp);
        assert(persist_run(fs, p, new_text) == persist_run(s1, p.drop_first(), new_text));
        assert(persist_run(s1, q, new_text) == persist_run(s2, q.drop_first(), new_text));
        assert(persist_run(s2, seq![PersistStep::Rename], new_text) == persist_run(
            s3,
            seq![PersistStep::Rename].drop_first(),
            new_text,
        ));
        assert(persist_run(fs, p.take(3), new_text) == s3);
        assert(s3.target == new_text);
    }
}

/// An in-memory simulation of the protocol, for exercising interruption:
/// the same steps, over strings instead of files.
pub struct FileSim {
    pub target: String,
    pub temp: Option<String>,
}

impl View for FileSim {
    type V = FsView;

    open spec fn view(&self) -> FsView {
        FsView {
            target: self.target@,
            temp: match &self.temp {
                Some(t) => Some(t@),
                None => None,
            },
        }
    }
}

impl FileSim {
    /// A file holding `content`, with no temporary beside it.
    pub fn new(content: String) -> (r: FileSim)
        ensures
            r@.target == content@,
            r@.temp is None,
    {
        FileSim { target: content, temp: None }
    }

    /// Performs one protocol step.
    pub fn step(&mut self, step: &PersistStep, new_text: &str)
        ensures
            final(self)@ == persist_step(old(self)@, *step, new_text@),
    {
        match step {
            PersistStep::CreateTemp => {
                self.temp = Some(String::new());
            },
            PersistStep::WriteTemp => {
                self.temp = Some(new_text.to_owned());
            },
            PersistStep::Rename => {
                let t = self.temp.take();
                match t {
                    Some(content) => {
                        self.target = content;
                    },
                    None => {},
                }
            },
        }
    }
}

} // verus!
