//! The source store: an addressable, mutable cache of document text keyed by
//! absolute path.
//!
//! The store supports whole-file replacement, cache-through loading, and
//! incremental range edits addressed by zero-based line/column coordinates
//! over the current cached text.

use vstd::prelude::*;
use crate::paths::AbsPath;
use crate::text::edit_offsets;
use crate::text::line_col_to_offset;
use crate::text::lemma_offset_of_bounds;
use crate::text::replace_range;
use crate::text::splice;

verus! {

/// Failure of a single source lookup, load or edit. A failure concerns one
/// source only and never corrupts the cached text.
#[derive(Debug, Clone, Copy, PartialEq, Eq, Structural)]
pub enum SourceError {
    /// The path has no cached content and could not be read from disk.
    NotFound,
    /// The bytes on disk are not valid text.
    InvalidEncoding,
    /// A line/column pair does not address a position of the current text.
    InvalidCoordinate,
}

/// A mutable cache of document text keyed by absolute path, with at most one
/// live entry per path.
pub struct SourceStore {
    paths: Vec<AbsPath>,
    texts: Vec<String>,
}

impl SourceStore {
    pub closed spec fn count(self) -> nat {
        self.paths@.len()
    }

    pub closed spec fn key_at(self, i: int) -> Seq<Seq<char>> {
        self.paths@[i]@
    }

    pub closed spec fn text_at(self, i: int) -> Seq<char> {
        self.texts@[i]@
    }

    /// Well-formed: one text per path, and no path cached twice.
    pub closed spec fn wf(self) -> bool {
        &&& self.paths@.len() == self.texts@.len()
        &&& forall|i: int, j: int|
            0 <= i < j < self.paths@.len() ==> #[trigger] self.key_at(i) != #[trigger] self.key_at(
                j,
            )
    }

    /// Whether the store holds text for the path `k`.
    pub open spec fn has_key(self, k: Seq<Seq<char>>) -> bool {
        exists|i: int| 0 <= i < self.count() && self.key_at(i) == k
    }

    /// The text the store holds for the path `k`, if any.
    pub open spec fn spec_get(self, k: Seq<Seq<char>>) -> Option<Seq<char>> {
        if self.has_key(k) {
            Some(self.text_at(choose|i: int| 0 <= i < self.count() && self.key_at(i) == k))
        } else {
            None
        }
    }

    pub proof fn lemma_get_at(self, i: int)
        requires
            self.wf(),
            0 <= i < self.count(),
        ensures
            self.spec_get(self.key_at(i)) == Some(self.text_at(i)),
    {
        let k = self.key_at(i);
        assert(self.has_key(k));
        let j = choose|j: int| 0 <= j < self.count() && self.key_at(j) == k;
        if i < j {
            assert(self.key_at(i) != self.key_at(j));
        } else if j < i {
            assert(self.key_at(j) != self.key_at(i));
        }
    }

    pub fn new() -> (r: SourceStore)
        ensures
            r.wf(),
            r.count() == 0,
            forall|k: Seq<Seq<char>>| r.spec_get(k) is None,
    {
        SourceStore { paths: Vec::new(), texts: Vec::new() }
    }

    /// The index of the entry for `path`, if one exists.
    fn find(&self, path: &AbsPath) -> (r: Option<usize>)
        ensures
            r matches Some(i) ==> i < self.count() && self.key_at(i as int) == path@,
            r is None ==> !self.has_key(path@),
    {
        let mut i: usize = 0;
        while i < self.paths.len()
            invariant
                i <= self.paths@.len(),
                forall|j: int| 0 <= j < i ==> #[trigger] self.key_at(j) != path@,
            decreases self.paths@.len() - i,
        {
            if self.paths[i].path_eq(path) {
                return Some(i);
            }
            i += 1;
        }
        None
    }

    /// Insert or replace the text cached for `path`, discarding any previous
    /// content for that path and touching no other entry.
    pub fn put(&mut self, path: AbsPath, text: String)
        requires
            old(self).wf(),
        ensures
            final(self).wf(),
            final(self).spec_get(path@) == Some(text@),
            forall|k: Seq<Seq<char>>|
                k != path@ ==> #[trigger] final(self).spec_get(k) == old(self).spec_get(k),
    {
        let found = self.find(&path);
        match found {
            Some(i) => {
                self.texts[i] = text;
                assert(forall|j: int|
                    0 <= j < self.count() ==> #[trigger] self.key_at(j) == old(self).key_at(j));
                proof {
                    self.lemma_get_at(i as int);
                    self.lemma_unchanged_except(*old(self), path@);
                }
            },
            None => {
                self.paths.push(path);
                self.texts.push(text);
                assert(forall|j: int|
                    0 <= j < old(self).count() ==> #[trigger] self.key_at(j) == old(
                        self,
                    ).key_at(j));
                assert(self.key_at(old(self).count() as int) == path@);
                assert(self.wf());
                proof {
                    self.lemma_get_at(old(self).count() as int);
                    self.lemma_unchanged_except(*old(self), path@);
                }
            },
        }
    }

    /// Helper: when the entries of `pre` survive at the same indices with the
    /// same texts, every key other than `touched` reads the same.
    proof fn lemma_unchanged_except(self, pre: SourceStore, touched: Seq<Seq<char>>)
        requires
            self.wf(),
            pre.wf(),
            pre.count() <= self.count(),
            forall|j: int| 0 <= j < pre.count() ==> #[trigger] self.key_at(j) == pre.key_at(j),
            forall|j: int|
                0 <= j < pre.count() && pre.key_at(j) != touched ==> #[trigger] self.text_at(j)
                    == pre.text_at(j),
            forall|j: int|
                pre.count() <= j < self.count() ==> #[trigger] self.key_at(j) == touched,
        ensures
            forall|k: Seq<Seq<char>>|
                k != touched ==> #[trigger] self.spec_get(k) == pre.spec_get(k),
    {
        assert forall|k: Seq<Seq<char>>| k != touched implies #[trigger] self.spec_get(k)
            == pre.spec_get(k) by {
            if pre.has_key(k) {
                let j = choose|j: int| 0 <= j < pre.count() && pre.key_at(j) == k;
                pre.lemma_get_at(j);
                self.lemma_get_at(j);
            } else {
                if self.has_key(k) {
                    let j = choose|j: int| 0 <= j < self.count() && self.key_at(j) == k;
                    assert(j < pre.count());
                    assert(pre.key_at(j) == k);
                }
            }
        }
    }

    /// The text cached for `path`, if any. This is the first half of a
    /// cache-through read: on `None` the caller reads the disk once and hands
    /// the outcome to [`SourceStore::load`].
    pub fn get_cached(&self, path: &AbsPath) -> (r: Option<String>)
        requires
            self.wf(),
        ensures
            r matches Some(t) ==> self.spec_get(path@) == Some(t@),
            r is None ==> self.spec_get(path@) is None,
    {
        let found = self.find(path);
        match found {
            Some(i) => {
                proof {
                    self.lemma_get_at(i as int);
                }
                Some(self.texts[i].clone())
            },
            None => None,
        }
    }

    /// The second half of a cache-through read: memoize what the disk read
    /// returned, so that later lookups (and edits) are served from memory. A
    /// failed read leaves the store unchanged and surfaces the failure.
    pub fn load(&mut self, path: &AbsPath, disk: Result<String, SourceError>) -> (r: Result<
        String,
        SourceError,
    >)
        requires
            old(self).wf(),
        ensures
            final(self).wf(),
            disk matches Ok(t) ==> {
                &&& final(self).spec_get(path@) == Some(t@)
                &&& r matches Ok(rt) && rt@ == t@
                &&& forall|k: Seq<Seq<char>>|
                    k != path@ ==> #[trigger] final(self).spec_get(k) == old(self).spec_get(k)
            },
            disk matches Err(e) ==> r == Err::<String, SourceError>(e) && *final(self) == *old(self),
    {
        match disk {
            Ok(t) => {
                let kept = t.clone();
                self.put(path.clone_path(), t);
                Ok(kept)
            },
            Err(e) => Err(e),
        }
    }

    /// Apply an incremental edit: replace the character span addressed by the
    /// zero-based line/column range with `new_text`, in one atomic update to
    /// the stored text. Returns the character range the replacement occupies
    /// in the resulting text. The edit either fully applies or, on an unknown
    /// path or out-of-bounds coordinates, changes nothing.
    pub fn edit(
        &mut self,
        path: &AbsPath,
        start_line: usize,
        start_col: usize,
        end_line: usize,
        end_col: usize,
        new_text: &str,
    ) -> (r: Result<(usize, usize), SourceError>)
        requires
            old(self).wf(),
        ensures
            final(self).wf(),
            !old(self).has_key(path@) ==> r == Err::<(usize, usize), SourceError>(
                SourceError::NotFound,
            ) && *final(self) == *old(self),
            old(self).has_key(path@) ==> match edit_offsets(
                old(self).spec_get(path@)->0,
                start_line as int,
                start_col as int,
                end_line as int,
                end_col as int,
            ) {
                Some(be) => {
                    &&& be.0 + new_text@.len() <= usize::MAX ==> {
                        &&& r matches Ok(range) && range.0 == be.0 && range.1 == be.0
                            + new_text@.len()
                        &&& final(self).spec_get(path@) == Some(
                            splice(old(self).spec_get(path@)->0, be.0, be.1, new_text@),
                        )
                        &&& forall|k: Seq<Seq<char>>|
                            k != path@ ==> #[trigger] final(self).spec_get(k) == old(
                                self,
                            ).spec_get(k)
                    }
                    &&& be.0 + new_text@.len() > usize::MAX ==> r == Err::<
                        (usize, usize),
                        SourceError,
                    >(SourceError::InvalidCoordinate) && *final(self) == *old(self)
                },
                None => r == Err::<(usize, usize), SourceError>(SourceError::InvalidCoordinate)
                    && *final(self) == *old(self),
            },
    {
        let found = self.find(path);
        let i = match found {
            Some(i) => i,
            None => {
                return Err(SourceError::NotFound);
            },
        };
        proof {
            self.lemma_get_at(i as int);
        }
        let b_opt = line_col_to_offset(self.texts[i].as_str(), start_line, start_col);
        let e_opt = line_col_to_offset(self.texts[i].as_str(), end_line, end_col);
        let (b, e) = match (b_opt, e_opt) {
            (Some(b), Some(e)) => (b, e),
            _ => {
                return Err(SourceError::InvalidCoordinate);
            },
        };
        if e < b {
            return Err(SourceError::InvalidCoordinate);
        }
        let new_len = new_text.unicode_len();
        if b > usize::MAX - new_len {
            return Err(SourceError::InvalidCoordinate);
        }
        proof {
            lemma_offset_of_bounds(
                self.texts@[i as int]@,
                end_line as int,
                end_col as int,
            );
        }
        let edited = replace_range(self.texts[i].as_str(), b, e, new_text);
        self.texts[i] = edited;
        assert(forall|j: int|
            0 <= j < self.count() ==> #[trigger] self.key_at(j) == old(self).key_at(j));
        proof {
            self.lemma_get_at(i as int);
            self.lemma_unchanged_except(*old(self), path@);
        }
        Ok((b, b + new_len))
    }
}

} // verus!
