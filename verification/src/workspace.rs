//! Workspace discovery: project descriptor files, the compilation targets
//! they declare, and the upward search for the workspace root.
//!
//! A project descriptor (`typst.toml`) declares zero or more `document`
//! entries, each with an `entrypoint` path relative to the descriptor's
//! directory and an optional explicit root directory override, and an
//! optional `package` entry that this subsystem does not consume. Reading
//! descriptor files from disk stays with the caller; this module parses
//! their text and derives the targets.

use vstd::prelude::*;
use crate::paths::AbsPath;
use crate::paths::is_valid_abs;
use crate::paths::is_valid_rel;
use crate::paths::parse_abs_path;
use crate::paths::parse_rel_path;
use crate::paths::split_path;

verus! {

/// A `document` entry of a project descriptor, as written there.
pub struct TypstDocument {
    /// Path of the document's main file, relative to the descriptor's
    /// directory.
    pub entrypoint: String,
    /// Optional absolute root directory override; the descriptor's own
    /// directory when absent.
    pub root_dir: Option<String>,
}

/// The `package` entry of a project descriptor: name/version metadata for
/// publishing, not consumed by the world subsystem.
pub struct TypstPackage {
    pub entrypoint: String,
}

/// A project descriptor deserialized from `typst.toml`: the documents to
/// compile, and the optional package entry.
pub struct TypstProject {
    pub documents: Vec<TypstDocument>,
    pub package: Option<TypstPackage>,
}

/// Why a project descriptor yielded no targets.
#[derive(Debug, Clone, Copy, PartialEq, Eq, Structural)]
pub enum LoadError {
    /// The text is not well-formed TOML.
    Unparsable,
    /// The TOML does not have the descriptor's shape: no `document` array,
    /// or an entry without a string `entrypoint`, or a non-string
    /// `root_dir`.
    BadSchema,
    /// A declared path is not well-formed: an entrypoint that is not a
    /// clean relative path, or a root override that is not a clean absolute
    /// path.
    BadPath,
}

/// A compilation target: one main file located at a specific root
/// directory.
pub struct Target {
    pub root_dir: AbsPath,
    pub main_file: AbsPath,
}

/// The TOML value tree of the `toml` crate, opaque to this crate's logic.
#[verifier::external_type_specification]
#[verifier::external_body]
pub struct ExValue(toml::Value);

/// The value tree that TOML text parses to, when the text is well-formed
/// TOML: a function of the text alone.
pub uninterp spec fn toml_tree_of(text: Seq<char>) -> Option<toml::Value>;

/// The value under `key`, when the value is a table holding that key: what
/// `toml::Value::get` looks up.
pub uninterp spec fn toml_member_of(v: toml::Value, key: Seq<char>) -> Option<toml::Value>;

/// The element list, when the value is a TOML array: what
/// `toml::Value::as_array` extracts.
pub uninterp spec fn toml_elems_of(v: toml::Value) -> Option<Seq<toml::Value>>;

/// The text, when the value is a TOML string: what `toml::Value::as_str`
/// extracts.
pub uninterp spec fn toml_str_of(v: toml::Value) -> Option<Seq<char>>;

/// Relies on `toml::from_str::<toml::Value>`: parses TOML text into its
/// value tree — a deterministic function of the text — or fails on text
/// that is not well-formed TOML.
#[verifier::external_body]
fn toml_parse(text: &str) -> (r: Option<toml::Value>)
    ensures
        (r is Some) == (toml_tree_of(text@) is Some),
        r matches Some(v) ==> toml_tree_of(text@) == Some(v),
{
    toml::from_str::<toml::Value>(text).ok()
}

/// Relies on `toml::Value::get`: looks up the value under `key` when `self`
/// is a table that has that key, a pure function of the value.
#[verifier::external_body]
fn toml_get<'a>(v: &'a toml::Value, key: &str) -> (r: Option<&'a toml::Value>)
    ensures
        (r is Some) == (toml_member_of(*v, key@) is Some),
        r matches Some(m) ==> toml_member_of(*v, key@) == Some(*m),
{
    v.get(key)
}

/// Relies on `toml::Value::as_array`: the element list when the value is an
/// array, a pure function of the value.
#[verifier::external_body]
fn toml_as_array(v: &toml::Value) -> (r: Option<&Vec<toml::Value>>)
    ensures
        (r is Some) == (toml_elems_of(*v) is Some),
        r matches Some(a) ==> toml_elems_of(*v) == Some(a@),
{
    v.as_array()
}

/// Relies on `toml::Value::as_str`: the text when the value is a string, a
/// pure function of the value.
#[verifier::external_body]
fn toml_as_str(v: &toml::Value) -> (r: Option<&str>)
    ensures
        (r is Some) == (toml_str_of(*v) is Some),
        r matches Some(s) ==> toml_str_of(*v) == Some(s@),
{
    v.as_str()
}

/// Extract the string under `key`, distinguishing "absent" from "present
/// but not a string".
fn get_string(v: &toml::Value, key: &str) -> (r: Result<Option<String>, LoadError>)
    ensures
        match toml_member_of(*v, key@) {
            None => r matches Ok(o) && o is None,
            Some(m) => match toml_str_of(m) {
                Some(s) => r matches Ok(o) && (o matches Some(rs) && rs@ == s),
                None => r matches Err(e) && e == LoadError::BadSchema,
            },
        },
{
    match toml_get(v, key) {
        None => Ok(None),
        Some(inner) => match toml_as_str(inner) {
            Some(s) => Ok(Some(s.to_owned())),
            None => Err(LoadError::BadSchema),
        },
    }
}

/// The `document` entries of a parsed descriptor, when it holds a
/// `document` array.
pub open spec fn spec_documents(root: toml::Value) -> Option<Seq<toml::Value>> {
    match toml_member_of(root, "document"@) {
        Some(d) => toml_elems_of(d),
        None => None,
    }
}

/// The declared fields of one `document` entry — its entrypoint text and
/// optional root override text — when the entry is well-shaped: a string
/// `entrypoint`, and `root_dir` absent or a string.
pub open spec fn spec_doc_fields(d: toml::Value) -> Option<(Seq<char>, Option<Seq<char>>)> {
    match toml_member_of(d, "entrypoint"@) {
        Some(ev) => match toml_str_of(ev) {
            Some(ep) => match toml_member_of(d, "root_dir"@) {
                Some(rv) => match toml_str_of(rv) {
                    Some(rd) => Some((ep, Some(rd))),
                    None => None,
                },
                None => Some((ep, None)),
            },
            None => None,
        },
        None => None,
    }
}

/// The optional `package` entry is absent or carries a string `entrypoint`.
pub open spec fn spec_package_ok(root: toml::Value) -> bool {
    match toml_member_of(root, "package"@) {
        Some(p) => match toml_member_of(p, "entrypoint"@) {
            Some(ev) => toml_str_of(ev) is Some,
            None => false,
        },
        None => true,
    }
}

/// The field pairs of every `document` entry, in declaration order, when
/// the whole descriptor has the expected shape.
pub open spec fn schema_fields(root: toml::Value) -> Option<Seq<(Seq<char>, Option<Seq<char>>)>> {
    match spec_documents(root) {
        Some(ds) => if (forall|i: int|
            0 <= i < ds.len() ==> spec_doc_fields(#[trigger] ds[i]) is Some) && spec_package_ok(
            root,
        ) {
            Some(Seq::new(ds.len(), |i: int| spec_doc_fields(ds[i])->0))
        } else {
            None
        },
        None => None,
    }
}

/// The deserialized entry `d` carries the declared field pair `f`.
pub open spec fn doc_matches(d: TypstDocument, f: (Seq<char>, Option<Seq<char>>)) -> bool {
    &&& d.entrypoint@ == f.0
    &&& match (d.root_dir, f.1) {
        (Some(s), Some(t)) => s@ == t,
        (None, None) => true,
        _ => false,
    }
}

/// Read a project descriptor out of its TOML text. The text must be
/// well-formed TOML holding a `document` array whose entries each carry a
/// string `entrypoint`; the optional `package` entry needs a string
/// `entrypoint` as well. Succeeds, with one deserialized document per
/// entry in declaration order, exactly on such text.
fn parse_project(text: &str) -> (r: Result<TypstProject, LoadError>)
    ensures
        (r matches Err(e) && e == LoadError::Unparsable) == (toml_tree_of(text@) is None),
        toml_tree_of(text@) matches Some(root) ==> {
            &&& ((r matches Err(e) && e == LoadError::BadSchema) == (schema_fields(root) is None))
            &&& schema_fields(root) matches Some(fs) ==> (r matches Ok(p) && p.documents@.len()
                == fs.len() && forall|i: int|
                0 <= i < fs.len() ==> doc_matches(#[trigger] p.documents@[i], fs[i]))
        },
{
    let value = match toml_parse(text) {
        Some(v) => v,
        None => {
            return Err(LoadError::Unparsable);
        },
    };
    let ghost root = value;
    let docs_value = match toml_get(&value, "document") {
        Some(d) => d,
        None => {
            assert(schema_fields(root) is None);
            return Err(LoadError::BadSchema);
        },
    };
    let entries = match toml_as_array(docs_value) {
        Some(a) => a,
        None => {
            assert(schema_fields(root) is None);
            return Err(LoadError::BadSchema);
        },
    };
    let ghost ds = entries@;
    assert(spec_documents(root) == Some(ds));
    let mut documents: Vec<TypstDocument> = Vec::new();
    let mut i: usize = 0;
    while i < entries.len()
        invariant
            i <= ds.len(),
            entries@ == ds,
            toml_tree_of(text@) == Some(root),
            spec_documents(root) == Some(ds),
            documents@.len() == i,
            forall|k: int|
                0 <= k < i ==> spec_doc_fields(#[trigger] ds[k]) is Some && doc_matches(
                    documents@[k],
                    spec_doc_fields(ds[k])->0,
                ),
        decreases entries.len() - i,
    {
        let entrypoint = match get_string(&entries[i], "entrypoint") {
            Ok(Some(s)) => s,
            Ok(None) => {
                assert(spec_doc_fields(ds[i as int]) is None);
                assert(schema_fields(root) is None);
                return Err(LoadError::BadSchema);
            },
            Err(e) => {
                assert(spec_doc_fields(ds[i as int]) is None);
                assert(schema_fields(root) is None);
                return Err(e);
            },
        };
        let root_dir = match get_string(&entries[i], "root_dir") {
            Ok(r) => r,
            Err(e) => {
                assert(spec_doc_fields(ds[i as int]) is None);
                assert(schema_fields(root) is None);
                return Err(e);
            },
        };
        documents.push(TypstDocument { entrypoint, root_dir });
        assert(spec_doc_fields(ds[i as int]) is Some && doc_matches(
            documents@[i as int],
            spec_doc_fields(ds[i as int])->0,
        ));
        i += 1;
    }
    let package = match toml_get(&value, "package") {
        None => None,
        Some(p) => match get_string(p, "entrypoint") {
            Ok(Some(s)) => Some(TypstPackage { entrypoint: s }),
            Ok(None) => {
                assert(!spec_package_ok(root));
                assert(schema_fields(root) is None);
                return Err(LoadError::BadSchema);
            },
            Err(e) => {
                assert(!spec_package_ok(root));
                assert(schema_fields(root) is None);
                return Err(e);
            },
        },
    };
    assert(spec_package_ok(root));
    assert(schema_fields(root) matches Some(fs) && fs.len() == ds.len());
    Ok(TypstProject { documents, package })
}

/// The declared paths of a `document` entry are well-formed.
pub open spec fn doc_paths_ok(d: TypstDocument) -> bool {
    &&& is_valid_rel(d.entrypoint@)
    &&& (d.root_dir matches Some(s) ==> is_valid_abs(s@))
}

/// The components of a well-formed absolute path text.
pub open spec fn spec_abs_segs(s: Seq<char>) -> Seq<Seq<char>> {
    if s.len() == 1 {
        Seq::empty()
    } else {
        split_path(s.subrange(1, s.len() as int))
    }
}

/// `t` is the target that the `document` entry `d` of a descriptor in
/// `root` declares: the main file is the entrypoint resolved against the
/// descriptor's directory, and the target root is the override when one is
/// given, else the descriptor's directory.
pub open spec fn target_of_doc(root: Seq<Seq<char>>, d: TypstDocument, t: Target) -> bool {
    &&& t.main_file@ == root + split_path(d.entrypoint@)
    &&& t.root_dir@ == (match d.root_dir {
        Some(s) => spec_abs_segs(s@),
        None => root,
    })
}

/// Derive the compilation targets that a parsed descriptor in `root_dir`
/// declares: one per `document` entry, in order. Fails, touching nothing,
/// iff some entry declares a path that is not well-formed.
pub fn targets_of_project(root_dir: &AbsPath, project: &TypstProject) -> (r: Result<
    Vec<Target>,
    LoadError,
>)
    ensures
        (r is Ok) == (forall|i: int|
            0 <= i < project.documents@.len() ==> doc_paths_ok(#[trigger] project.documents@[i])),
        r matches Ok(ts) ==> {
            &&& ts@.len() == project.documents@.len()
            &&& forall|i: int|
                0 <= i < ts@.len() ==> target_of_doc(
                    root_dir@,
                    #[trigger] project.documents@[i],
                    ts@[i],
                )
        },
        r matches Err(e) ==> e == LoadError::BadPath,
{
    let mut ts: Vec<Target> = Vec::new();
    let mut i: usize = 0;
    while i < project.documents.len()
        invariant
            i <= project.documents@.len(),
            ts@.len() == i,
            forall|j: int| 0 <= j < i ==> doc_paths_ok(#[trigger] project.documents@[j]),
            forall|j: int|
                0 <= j < i ==> target_of_doc(
                    root_dir@,
                    #[trigger] project.documents@[j],
                    ts@[j],
                ),
        decreases project.documents@.len() - i,
    {
        let doc = &project.documents[i];
        let rel = match parse_rel_path(doc.entrypoint.as_str()) {
            Some(v) => v,
            None => {
                return Err(LoadError::BadPath);
            },
        };
        let root = match &doc.root_dir {
            Some(s) => match parse_abs_path(s.as_str()) {
                Some(p) => p,
                None => {
                    return Err(LoadError::BadPath);
                },
            },
            None => root_dir.clone_path(),
        };
        let main_file = root_dir.join(&rel);
        ts.push(Target { root_dir: root, main_file });
        i += 1;
    }
    Ok(ts)
}

/// A declared field pair carries well-formed paths: a clean relative
/// entrypoint and, when present, a clean absolute root override.
pub open spec fn fields_paths_ok(f: (Seq<char>, Option<Seq<char>>)) -> bool {
    &&& is_valid_rel(f.0)
    &&& (f.1 matches Some(s) ==> is_valid_abs(s))
}

/// `t` is the target the declared field pair `f` yields against the
/// descriptor's directory `root`.
pub open spec fn field_target(
    root: Seq<Seq<char>>,
    f: (Seq<char>, Option<Seq<char>>),
    t: Target,
) -> bool {
    &&& t.main_file@ == root + split_path(f.0)
    &&& t.root_dir@ == (match f.1 {
        Some(s) => spec_abs_segs(s),
        None => root,
    })
}

/// Load the compilation targets a descriptor's text declares against the
/// directory `root_dir` that holds the descriptor. Fails with `Unparsable`
/// exactly on text that is not well-formed TOML, with `BadSchema` exactly
/// when the parsed tree lacks the descriptor's shape, and with `BadPath`
/// exactly when some entry declares an ill-formed path; otherwise it
/// succeeds with one target per `document` entry, in declaration order,
/// every target's main file lying under the descriptor's directory.
pub fn load_targets(root_dir: &AbsPath, text: &str) -> (r: Result<Vec<Target>, LoadError>)
    ensures
        (r matches Err(e) && e == LoadError::Unparsable) == (toml_tree_of(text@) is None),
        toml_tree_of(text@) matches Some(root) ==> {
            &&& ((r matches Err(e) && e == LoadError::BadSchema) == (schema_fields(root) is None))
            &&& schema_fields(root) matches Some(fs) ==> {
                &&& ((r is Ok) == (forall|i: int|
                    0 <= i < fs.len() ==> fields_paths_ok(#[trigger] fs[i])))
                &&& (r matches Ok(ts) ==> ts@.len() == fs.len() && (forall|i: int|
                    0 <= i < fs.len() ==> field_target(root_dir@, #[trigger] fs[i], ts@[i])))
                &&& (r is Err ==> (r matches Err(e) && e == LoadError::BadPath))
            }
        },
        r matches Ok(ts) ==> forall|i: int|
            0 <= i < ts@.len() ==> root_dir@.is_prefix_of(#[trigger] ts@[i].main_file@),
{
    let project = match parse_project(text) {
        Ok(p) => p,
        Err(e) => {
            return Err(e);
        },
    };
    let r = targets_of_project(root_dir, &project);
    proof {
        match toml_tree_of(text@) {
            Some(root) => {
                match schema_fields(root) {
                    Some(fs) => {
                        assert forall|i: int| 0 <= i < fs.len() implies (doc_paths_ok(
                            project.documents@[i],
                        ) == fields_paths_ok(#[trigger] fs[i])) by {
                            assert(doc_matches(project.documents@[i], fs[i]));
                        }
                        match &r {
                            Ok(ts) => {
                                assert forall|i: int| 0 <= i < fs.len() implies field_target(
                                    root_dir@,
                                    #[trigger] fs[i],
                                    ts@[i],
                                ) by {
                                    assert(target_of_doc(
                                        root_dir@,
                                        project.documents@[i],
                                        ts@[i],
                                    ));
                                    assert(doc_matches(project.documents@[i], fs[i]));
                                }
                            },
                            Err(_) => {},
                        }
                    },
                    None => {},
                }
            },
            None => {},
        }
        match &r {
            Ok(ts) => {
                assert forall|i: int| 0 <= i < ts@.len() implies root_dir@.is_prefix_of(
                    #[trigger] ts@[i].main_file@,
                ) by {
                    assert(target_of_doc(root_dir@, project.documents@[i], ts@[i]));
                    assert(root_dir@ =~= ts@[i].main_file@.subrange(0, root_dir@.len() as int));
                }
            },
            Err(_) => {},
        }
    }
    r
}

/// `t` stems from one of the descriptor directories in `inputs`.
pub open spec fn from_some_input(inputs: Seq<(AbsPath, Option<String>)>, t: Target) -> bool {
    exists|j: int| 0 <= j < inputs.len() && (#[trigger] inputs[j]).0@.is_prefix_of(t.main_file@)
}

/// What one candidate directory contributes to the scan: nothing when its
/// descriptor text is missing, unparsable, malformed or declares an
/// ill-formed path, and exactly its declared targets, in declaration order,
/// otherwise.
pub open spec fn input_yields(dir: AbsPath, text: Option<String>, part: Seq<Target>) -> bool {
    match text {
        None => part.len() == 0,
        Some(t) => match toml_tree_of(t@) {
            None => part.len() == 0,
            Some(root) => match schema_fields(root) {
                None => part.len() == 0,
                Some(fs) => if forall|i: int|
                    0 <= i < fs.len() ==> fields_paths_ok(#[trigger] fs[i]) {
                    part.len() == fs.len() && (forall|i: int|
                        0 <= i < fs.len() ==> field_target(dir@, #[trigger] fs[i], part[i]))
                } else {
                    part.len() == 0
                },
            },
        },
    }
}

/// Collect the targets of every candidate directory whose descriptor text
/// could be read and parsed: the result is the concatenation, in input
/// order, of what each directory's descriptor declares. A directory whose
/// descriptor is missing or malformed contributes nothing and poisons
/// nothing else.
pub fn search_targets(inputs: Vec<(AbsPath, Option<String>)>) -> (r: Vec<Target>)
    ensures
        forall|i: int| 0 <= i < r@.len() ==> from_some_input(inputs@, #[trigger] r@[i]),
        exists|parts: Seq<Seq<Target>>|
            {
                &&& parts.len() == inputs@.len()
                &&& r@ == parts.flatten()
                &&& forall|j: int|
                    0 <= j < inputs@.len() ==> input_yields(
                        (#[trigger] inputs@[j]).0,
                        inputs@[j].1,
                        parts[j],
                    )
            },
{
    let mut r: Vec<Target> = Vec::new();
    let ghost mut parts: Seq<Seq<Target>> = Seq::empty();
    let mut i: usize = 0;
    assert(r@ =~= parts.flatten());
    while i < inputs.len()
        invariant
            i <= inputs@.len(),
            parts.len() == i,
            r@ == parts.flatten(),
            forall|j: int|
                0 <= j < i ==> input_yields(
                    (#[trigger] inputs@[j]).0,
                    inputs@[j].1,
                    parts[j],
                ),
            forall|k: int| 0 <= k < r@.len() ==> from_some_input(inputs@, #[trigger] r@[k]),
        decreases inputs@.len() - i,
    {
        let ghost parts0 = parts;
        let (dir, text) = &inputs[i];
        match text {
            Some(t) => {
                match load_targets(dir, t.as_str()) {
                    Ok(mut ts) => {
                        proof {
                            assert forall|k: int| 0 <= k < ts@.len() implies from_some_input(
                                inputs@,
                                #[trigger] ts@[k],
                            ) by {
                                assert(inputs@[i as int].0@.is_prefix_of(ts@[k].main_file@));
                            }
                            assert(input_yields(inputs@[i as int].0, inputs@[i as int].1, ts@));
                            parts0.lemma_flatten_push(ts@);
                            parts = parts0.push(ts@);
                        }
                        r.append(&mut ts);
                        assert(r@ =~= parts.flatten());
                    },
                    Err(_) => {
                        proof {
                            match toml_tree_of(t@) {
                                None => {},
                                Some(root) => match schema_fields(root) {
                                    None => {},
                                    Some(fs) => {
                                        if forall|k: int|
                                            0 <= k < fs.len() ==> fields_paths_ok(
                                                #[trigger] fs[k],
                                            ) {
                                            assert(false);
                                        }
                                    },
                                },
                            }
                            assert(input_yields(
                                inputs@[i as int].0,
                                inputs@[i as int].1,
                                Seq::<Target>::empty(),
                            ));
                            parts0.lemma_flatten_push(Seq::<Target>::empty());
                            parts = parts0.push(Seq::<Target>::empty());
                            assert(r@ =~= parts.flatten());
                        }
                    },
                }
            },
            None => {
                proof {
                    assert(input_yields(
                        inputs@[i as int].0,
                        inputs@[i as int].1,
                        Seq::<Target>::empty(),
                    ));
                    parts0.lemma_flatten_push(Seq::<Target>::empty());
                    parts = parts0.push(Seq::<Target>::empty());
                    assert(r@ =~= parts.flatten());
                }
            },
        }
        i += 1;
    }
    r
}

/// Find the workspace root governing `start_dir`: the nearest directory, at
/// `start_dir` itself or above it, that is listed in `descriptor_dirs` as
/// holding a project descriptor. The caller probes the filesystem for the
/// descriptor files; this function picks the nearest match.
pub fn search_workspace(start_dir: &AbsPath, descriptor_dirs: &Vec<AbsPath>) -> (r: Option<
    AbsPath,
>)
    ensures
        r matches Some(w) ==> {
            &&& w@.is_prefix_of(start_dir@)
            &&& exists|j: int|
                0 <= j < descriptor_dirs@.len() && (#[trigger] descriptor_dirs@[j])@ == w@
            &&& forall|j: int|
                0 <= j < descriptor_dirs@.len() && (#[trigger] descriptor_dirs@[j])@.is_prefix_of(
                    start_dir@,
                ) ==> descriptor_dirs@[j]@.len() <= w@.len()
        },
        r is None ==> forall|j: int|
            0 <= j < descriptor_dirs@.len() ==> !(#[trigger] descriptor_dirs@[j])@.is_prefix_of(
                start_dir@,
            ),
{
    let mut best: Option<usize> = None;
    let mut j: usize = 0;
    while j < descriptor_dirs.len()
        invariant
            j <= descriptor_dirs@.len(),
            best matches Some(b) ==> {
                &&& b < descriptor_dirs@.len()
                &&& descriptor_dirs@[b as int]@.is_prefix_of(start_dir@)
                &&& forall|k: int|
                    0 <= k < j && (#[trigger] descriptor_dirs@[k])@.is_prefix_of(start_dir@)
                        ==> descriptor_dirs@[k]@.len() <= descriptor_dirs@[b as int]@.len()
            },
            best is None ==> forall|k: int|
                0 <= k < j ==> !(#[trigger] descriptor_dirs@[k])@.is_prefix_of(start_dir@),
        decreases descriptor_dirs@.len() - j,
    {
        if start_dir.has_prefix(&descriptor_dirs[j]) {
            let better = match best {
                Some(b) => descriptor_dirs[b].seg_count() < descriptor_dirs[j].seg_count(),
                None => true,
            };
            if better {
                best = Some(j);
            }
        }
        j += 1;
    }
    match best {
        Some(b) => Some(descriptor_dirs[b].clone_path()),
        None => None,
    }
}

} // verus!
