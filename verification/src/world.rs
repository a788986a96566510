//! The compilation world: the snapshot an external compiler consumes for one
//! entrypoint document.
//!
//! A world composes the source store, the font catalog and the package-cache
//! routing, and owns the most recent compiled document for reuse by
//! completion. The compiler itself — a pure function from a world snapshot
//! to a document or diagnostics — stays outside; `D` is whatever document
//! type it produces. The world is generic in it and never looks inside.

use vstd::prelude::*;
use crate::fonts::FontCatalog;
use crate::fonts::FontMeta;
use crate::fonts::FontSlot;
use crate::package::package_dir;
use crate::package::spec_package_dir;
use crate::paths::AbsPath;
use crate::store::SourceError;
use crate::store::SourceStore;
use crate::text::edit_offsets;
use crate::text::line_col_to_offset;
use crate::text::offset_of;
use crate::text::splice;

verus! {

/// The semantic kind of a completion candidate, as the completion engine
/// reports it.
#[derive(Debug, Clone, Copy, PartialEq, Eq, Structural)]
pub enum CompletionKind {
    Func,
    Syntax,
    Type,
    Param,
    Constant,
    Symbol(char),
}

/// One completion candidate: a label and its semantic kind.
pub struct CompletionItem {
    pub label: String,
    pub kind: CompletionKind,
}

/// One diagnostic of a failed compile attempt, as the external compiler
/// reports it.
#[derive(Debug, PartialEq, Eq)]
pub struct Diagnostic {
    pub message: String,
}

/// A calendar date, as the world's current-date oracle reports it.
#[derive(Debug, Clone, Copy, PartialEq, Eq, Structural)]
pub struct Datetime {
    pub year: i32,
    pub month: u8,
    pub day: u8,
}

/// The compiler's standard-library handle: always the same singleton per
/// world. Its contents belong to the compiler, not to this subsystem.
pub struct StandardLibrary {}

/// Identity of a remote package within the fixed namespace.
pub struct PackageSpec {
    pub name: String,
    pub version: String,
}

/// A compiler-visible file identifier: a path relative to either a
/// package's root (for package sources) or the world's root (for local
/// sources).
pub struct FileId {
    pub package: Option<PackageSpec>,
    pub vpath: Vec<String>,
}

/// The compilation world for one entrypoint document.
pub struct LanguageServiceWorld<D> {
    /// Root directory; all local source files live under it.
    pub root_dir: AbsPath,
    /// Path of the main file the compilation starts from.
    pub main_path: AbsPath,
    /// Metadata index and storage for lazily loaded fonts.
    pub fonts: FontCatalog,
    /// Cache of source text, keyed by absolute path.
    pub sources: SourceStore,
    /// The last successfully compiled document, replaced wholesale on each
    /// successful compile and read by completion.
    pub document: Option<D>,
    /// Count of compile attempts, the clock of the caller's bounded cache
    /// eviction pass. Saturates rather than wraps.
    pub generation: u64,
    /// The compiler's standard library.
    pub library: StandardLibrary,
}

impl<D> LanguageServiceWorld<D> {
    /// Well-formed: components well-formed, the main file at or under the
    /// root, and the main file's text always cached.
    pub open spec fn wf(self) -> bool {
        &&& self.sources.wf()
        &&& self.fonts.wf()
        &&& self.root_dir@.is_prefix_of(self.main_path@)
        &&& self.sources.has_key(self.main_path@)
    }

    /// The cursor `(line, column)` addresses a position of the text cached
    /// at `path`.
    pub open spec fn cursor_valid(self, path: Seq<Seq<char>>, line: int, column: int) -> bool {
        match self.sources.spec_get(path) {
            Some(t) => offset_of(t, line, column) is Some,
            None => false,
        }
    }

    /// Create a world rooted at `root_dir` with main file `main_path`, whose
    /// current text the caller supplies — from the editor, or read from disk
    /// once; `None` when it could not be read. Construction fails, creating
    /// nothing, exactly when the main file does not resolve to a descendant
    /// of (or equal to) the root directory, or its text is unavailable.
    pub fn new(
        root_dir: AbsPath,
        main_path: AbsPath,
        main_text: Option<String>,
        fonts: FontCatalog,
    ) -> (r: Option<Self>)
        requires
            fonts.wf(),
        ensures
            (r is Some) == (root_dir@.is_prefix_of(main_path@) && main_text is Some),
            r matches Some(w) ==> {
                &&& w.wf()
                &&& w.root_dir@ == root_dir@
                &&& w.main_path@ == main_path@
                &&& w.sources.spec_get(main_path@) == Some(main_text->0@)
                &&& forall|k: Seq<Seq<char>>|
                    k != main_path@ ==> #[trigger] w.sources.spec_get(k) is None
                &&& w.fonts == fonts
                &&& w.document is None
                &&& w.generation == 0
            },
    {
        if !main_path.has_prefix(&root_dir) {
            return None;
        }
        let text = match main_text {
            Some(t) => t,
            None => {
                return None;
            },
        };
        let mut sources = SourceStore::new();
        sources.put(main_path.clone_path(), text);
        Some(
            LanguageServiceWorld {
                root_dir,
                main_path,
                fonts,
                sources,
                document: None,
                generation: 0,
                library: StandardLibrary {  },
            },
        )
    }

    /// Register the current editor text for `path`, replacing any text
    /// cached for it and touching no other source.
    pub fn add_file(&mut self, path: &AbsPath, text: String)
        requires
            old(self).wf(),
        ensures
            final(self).wf(),
            final(self).sources.spec_get(path@) == Some(text@),
            forall|k: Seq<Seq<char>>|
                k != path@ ==> #[trigger] final(self).sources.spec_get(k) == old(
                    self,
                ).sources.spec_get(k),
            final(self).root_dir == old(self).root_dir,
            final(self).main_path == old(self).main_path,
            final(self).fonts == old(self).fonts,
            final(self).document == old(self).document,
            final(self).generation == old(self).generation,
    {
        self.sources.put(path.clone_path(), text);
        assert(self.sources.spec_get(self.main_path@) is Some);
    }

    /// Apply an incremental edit to the source at `path`: replace the span
    /// addressed by the zero-based `(line, column)` range `begin..end` with
    /// `text`, in one atomic update. The edit succeeds, returning the
    /// character range the replacement occupies in the resulting text,
    /// exactly when the path has a cached source and the range addresses
    /// positions of its current text (and the returned range fits the
    /// machine); on `None` the world does not change at all.
    pub fn update_file(
        &mut self,
        path: &AbsPath,
        text: &str,
        begin: (usize, usize),
        end: (usize, usize),
    ) -> (r: Option<(usize, usize)>)
        requires
            old(self).wf(),
        ensures
            final(self).wf(),
            final(self).root_dir == old(self).root_dir,
            final(self).main_path == old(self).main_path,
            final(self).fonts == old(self).fonts,
            final(self).document == old(self).document,
            final(self).generation == old(self).generation,
            (old(self).sources.has_key(path@) && (edit_offsets(
                old(self).sources.spec_get(path@)->0,
                begin.0 as int,
                begin.1 as int,
                end.0 as int,
                end.1 as int,
            ) matches Some(be) && be.0 + text@.len() <= usize::MAX)) ==> r is Some,
            match r {
                Some(range) => {
                    &&& old(self).sources.has_key(path@)
                    &&& edit_offsets(
                        old(self).sources.spec_get(path@)->0,
                        begin.0 as int,
                        begin.1 as int,
                        end.0 as int,
                        end.1 as int,
                    ) matches Some(be) && range.0 == be.0 && range.1 == be.0 + text@.len()
                        && final(self).sources.spec_get(path@) == Some(
                        splice(old(self).sources.spec_get(path@)->0, be.0, be.1, text@),
                    )
                    &&& forall|k: Seq<Seq<char>>|
                        k != path@ ==> #[trigger] final(self).sources.spec_get(k) == old(
                            self,
                        ).sources.spec_get(k)
                },
                None => *final(self) == *old(self),
            },
    {
        let r = self.sources.edit(path, begin.0, begin.1, end.0, end.1, text);
        match r {
            Ok(range) => {
                assert(self.sources.spec_get(self.main_path@) is Some);
                Some(range)
            },
            Err(_) => None,
        }
    }

    /// The cached text of the source at `path`, if any: the first half of a
    /// cache-through read. On `None` the caller reads the disk once and
    /// hands the outcome to [`LanguageServiceWorld::load_source`].
    pub fn source(&self, path: &AbsPath) -> (r: Option<String>)
        requires
            self.wf(),
        ensures
            r matches Some(t) ==> self.sources.spec_get(path@) == Some(t@),
            r is None ==> self.sources.spec_get(path@) is None,
    {
        self.sources.get_cached(path)
    }

    /// The second half of a cache-through read: memoize what the disk read
    /// returned, so later lookups — including the compiler's, during the
    /// same compile — are served from memory. A failed read changes nothing
    /// and surfaces as the typed failure of this one lookup.
    pub fn load_source(&mut self, path: &AbsPath, disk: Result<String, SourceError>) -> (r: Result<
        String,
        SourceError,
    >)
        requires
            old(self).wf(),
        ensures
            final(self).wf(),
            final(self).root_dir == old(self).root_dir,
            final(self).main_path == old(self).main_path,
            final(self).fonts == old(self).fonts,
            final(self).document == old(self).document,
            final(self).generation == old(self).generation,
            disk matches Ok(t) ==> {
                &&& final(self).sources.spec_get(path@) == Some(t@)
                &&& r matches Ok(rt) && rt@ == t@
                &&& forall|k: Seq<Seq<char>>|
                    k != path@ ==> #[trigger] final(self).sources.spec_get(k) == old(
                        self,
                    ).sources.spec_get(k)
            },
            disk matches Err(e) ==> r == Err::<String, SourceError>(e) && *final(self) == *old(
                self,
            ),
    {
        let r = self.sources.load(path, disk);
        assert(self.sources.spec_get(self.main_path@) is Some);
        r
    }

    /// The absolute path a file identifier denotes: package-relative
    /// identifiers live under the package's canonical cache directory,
    /// root-relative ones under this world's root.
    pub fn file_path(&self, id: &FileId, cache_root: &AbsPath) -> (r: AbsPath)
        ensures
            r@ == (match id.package {
                Some(p) => spec_package_dir(cache_root@, p.name@, p.version@)
                    + id.vpath.deep_view(),
                None => self.root_dir@ + id.vpath.deep_view(),
            }),
    {
        match &id.package {
            Some(p) => package_dir(cache_root, p.name.as_str(), p.version.as_str()).join(
                &id.vpath,
            ),
            None => self.root_dir.join(&id.vpath),
        }
    }

    /// The main source file's current text.
    pub fn main(&self) -> (r: String)
        requires
            self.wf(),
        ensures
            self.sources.spec_get(self.main_path@) == Some(r@),
    {
        let cached = self.sources.get_cached(&self.main_path);
        match cached {
            Some(t) => t,
            None => {
                proof {
                    assert(false);
                }
                String::new()
            },
        }
    }

    /// The standard-library handle: always the same singleton per world.
    pub fn library(&self) -> (r: &StandardLibrary)
        ensures
            *r == self.library,
    {
        &self.library
    }

    /// Metadata about all known fonts, in the position-stable book order.
    pub fn book(&self) -> (r: &Vec<FontMeta>)
        requires
            self.wf(),
        ensures
            r@.len() == self.fonts.count(),
            forall|i: int| 0 <= i < self.fonts.count() ==> #[trigger] r@[i]@ == self.fonts.meta_at(
                i,
            ),
    {
        self.fonts.metadata()
    }

    /// The bytes of the font with index `index` in the font book, if they
    /// have been materialized.
    pub fn font(&self, index: usize) -> (r: Option<&Vec<u8>>)
        requires
            self.wf(),
            index < self.fonts.count(),
        ensures
            (r is Some) == (self.fonts.entry_at(index as int).font is Loaded),
            r matches Some(d) ==> (self.fonts.entry_at(index as int).font matches FontSlot::Loaded(
                b,
            ) && d@ == b@),
    {
        self.fonts.resolve(index)
    }

    /// The current-date oracle: a fixed epoch value, whatever offset is
    /// asked for, to keep compilation deterministic.
    pub fn today(&self, _offset: Option<i64>) -> (r: Option<Datetime>)
        ensures
            r == Some(Datetime { year: 1970, month: 1, day: 1 }),
    {
        Some(Datetime { year: 1970, month: 1, day: 1 })
    }

    /// Record the outcome of one compile attempt the external compiler made
    /// against this world. Success replaces the world's last document
    /// wholesale; failure keeps the previous one and surfaces the compiler's
    /// diagnostics in their order. Either way the compile generation
    /// advances: the caller's bounded cache-eviction sweep runs after every
    /// attempt, success or failure.
    pub fn compile(&mut self, outcome: Result<D, Vec<Diagnostic>>) -> (r: Result<
        (),
        Vec<Diagnostic>,
    >)
        requires
            old(self).wf(),
        ensures
            final(self).wf(),
            final(self).root_dir == old(self).root_dir,
            final(self).main_path == old(self).main_path,
            final(self).fonts == old(self).fonts,
            final(self).sources == old(self).sources,
            final(self).generation == (if old(self).generation < u64::MAX {
                old(self).generation + 1
            } else {
                old(self).generation as int
            }),
            outcome matches Ok(d) ==> final(self).document == Some(d) && r is Ok,
            outcome matches Err(ds) ==> final(self).document == old(self).document && r == Err::<
                (),
                Vec<Diagnostic>,
            >(ds),
    {
        let r = match outcome {
            Ok(d) => {
                self.document = Some(d);
                Ok(())
            },
            Err(ds) => Err(ds),
        };
        if self.generation < u64::MAX {
            self.generation = self.generation + 1;
        }
        r
    }

    /// The completion context at a cursor: the cached text at `path` and the
    /// character offset the zero-based `(line, column)` cursor addresses in
    /// it. `None` when the path has no cached source or the cursor is out of
    /// bounds — the cases in which completion yields an empty candidate
    /// list rather than an error.
    pub fn completion_offset(&self, path: &AbsPath, line: usize, column: usize) -> (r: Option<
        (String, usize),
    >)
        requires
            self.wf(),
        ensures
            r matches Some(p) ==> {
                &&& self.sources.spec_get(path@) == Some(p.0@)
                &&& offset_of(p.0@, line as int, column as int) == Some(p.1 as int)
            },
            (r is Some) == self.cursor_valid(path@, line as int, column as int),
    {
        let text = match self.sources.get_cached(path) {
            Some(t) => t,
            None => {
                return None;
            },
        };
        match line_col_to_offset(text.as_str(), line, column) {
            Some(o) => Some((text, o)),
            None => None,
        }
    }

    /// Assemble the completion result at a cursor from the external
    /// engine's candidates: they pass through in the engine's order — no
    /// deduplication, no resorting — and the result is empty exactly when
    /// the cursor does not address a position of a cached source.
    pub fn complete(
        &self,
        path: &AbsPath,
        line: usize,
        column: usize,
        candidates: Vec<CompletionItem>,
    ) -> (r: Vec<CompletionItem>)
        requires
            self.wf(),
        ensures
            self.cursor_valid(path@, line as int, column as int) ==> r == candidates,
            !self.cursor_valid(path@, line as int, column as int) ==> r@.len() == 0,
    {
        let ctx = self.completion_offset(path, line, column);
        match ctx {
            Some(_) => candidates,
            None => Vec::new(),
        }
    }
}

} // verus!
