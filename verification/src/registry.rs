//! The workspace registry: the process-wide table mapping a root directory
//! to its compilation world.
//!
//! The registry creates worlds during startup discovery or on first touch,
//! routes every later file event to the world whose root is the nearest
//! ancestor of the event's path, and never destroys a world. Registering a
//! second world under an existing root replaces the first: last writer wins
//! by root key.

use vstd::prelude::*;
use crate::fonts::FontCatalog;
use crate::paths::AbsPath;
use crate::paths::is_strict_ancestor;
use crate::workspace::Target;
use crate::world::LanguageServiceWorld;

verus! {

/// A declared target can become a world: its main file lies at or under its
/// declared root, and its main text is available.
pub open spec fn target_ok(t: Target, text: Option<String>) -> bool {
    t.root_dir@.is_prefix_of(t.main_file@) && text is Some
}

/// `w` is the world that the declared target `t`, with its main text, was
/// built from.
pub open spec fn world_built_from<D>(
    w: LanguageServiceWorld<D>,
    t: (Target, Option<String>),
) -> bool {
    &&& w.root_dir@ == t.0.root_dir@
    &&& w.main_path@ == t.0.main_file@
    &&& w.sources.spec_get(t.0.main_file@) == Some(t.1->0@)
    &&& w.document is None
}

/// The target at `j` is usable and no later usable target declares the same
/// root — so, targets being registered in order with the later writer
/// winning per root, its world is the one that survives.
pub open spec fn last_usable_with_root(ts: Seq<(Target, Option<String>)>, j: int) -> bool {
    &&& 0 <= j < ts.len()
    &&& target_ok(ts[j].0, ts[j].1)
    &&& forall|l: int|
        j < l < ts.len() ==> !(target_ok((#[trigger] ts[l]).0, ts[l].1) && ts[l].0.root_dir@
            == ts[j].0.root_dir@)
}

/// How many of the declared targets can become worlds.
pub open spec fn count_ok(ts: Seq<(Target, Option<String>)>) -> int
    decreases ts.len(),
{
    if ts.len() == 0 {
        0
    } else {
        count_ok(ts.drop_last()) + if target_ok(ts.last().0, ts.last().1) {
            1int
        } else {
            0int
        }
    }
}

/// Some usable target among `ts` declares the root `k`.
pub open spec fn declares_root(ts: Seq<(Target, Option<String>)>, k: Seq<Seq<char>>) -> bool {
    exists|j: int|
        0 <= j < ts.len() && target_ok((#[trigger] ts[j]).0, ts[j].1) && ts[j].0.root_dir@ == k
}

/// The table of live compilation worlds, keyed by root directory.
pub struct WorkspaceRegistry<D> {
    pub worlds: Vec<LanguageServiceWorld<D>>,
}

impl<D> WorkspaceRegistry<D> {
    pub open spec fn count(self) -> nat {
        self.worlds@.len()
    }

    /// The root directory key of entry `i`.
    pub open spec fn root_at(self, i: int) -> Seq<Seq<char>> {
        self.worlds@[i].root_dir@
    }

    /// The world registered at entry `i`.
    pub open spec fn world_at(self, i: int) -> LanguageServiceWorld<D> {
        self.worlds@[i]
    }

    /// Well-formed: every registered world is well-formed and no root is
    /// registered twice.
    pub open spec fn wf(self) -> bool {
        &&& forall|i: int| 0 <= i < self.worlds@.len() ==> (#[trigger] self.worlds@[i]).wf()
        &&& forall|i: int, j: int|
            0 <= i < j < self.worlds@.len() ==> #[trigger] self.root_at(i)
                != #[trigger] self.root_at(j)
    }

    /// Whether some world is registered under the root `k`.
    pub open spec fn has_root(self, k: Seq<Seq<char>>) -> bool {
        exists|i: int| 0 <= i < self.count() && self.root_at(i) == k
    }

    pub fn new() -> (r: Self)
        ensures
            r.wf(),
            r.count() == 0,
    {
        WorkspaceRegistry { worlds: Vec::new() }
    }

    pub fn world_count(&self) -> (n: usize)
        ensures
            n == self.count(),
    {
        self.worlds.len()
    }

    /// The index of the world registered under `root`, if any.
    fn find_index(&self, root: &AbsPath) -> (r: Option<usize>)
        ensures
            r matches Some(i) ==> i < self.count() && self.root_at(i as int) == root@,
            r is None ==> !self.has_root(root@),
    {
        let mut i: usize = 0;
        while i < self.worlds.len()
            invariant
                i <= self.worlds@.len(),
                forall|j: int| 0 <= j < i ==> #[trigger] self.root_at(j) != root@,
            decreases self.worlds@.len() - i,
        {
            if self.worlds[i].root_dir.path_eq(root) {
                return Some(i);
            }
            i += 1;
        }
        None
    }

    /// Shared read access to the world at entry `i`.
    pub fn world(&self, i: usize) -> (r: &LanguageServiceWorld<D>)
        requires
            i < self.count(),
        ensures
            *r == self.world_at(i as int),
    {
        &self.worlds[i]
    }

    /// Register `world` under its root directory. When a world already
    /// holds that root, the new one replaces it — last writer wins — and
    /// every other entry stays where it is. Returns the entry's index.
    pub fn register(&mut self, world: LanguageServiceWorld<D>) -> (r: usize)
        requires
            old(self).wf(),
            world.wf(),
        ensures
            final(self).wf(),
            r < final(self).count(),
            final(self).world_at(r as int) == world,
            final(self).root_at(r as int) == world.root_dir@,
            old(self).has_root(world.root_dir@) ==> final(self).count() == old(self).count()
                && old(self).root_at(r as int) == world.root_dir@,
            !old(self).has_root(world.root_dir@) ==> final(self).count() == old(self).count() + 1
                && r == old(self).count(),
            forall|j: int|
                0 <= j < final(self).count() && j != r ==> #[trigger] final(self).world_at(j)
                    == old(self).world_at(j),
            forall|k: Seq<Seq<char>>|
                final(self).has_root(k) == (old(self).has_root(k) || k == world.root_dir@),
    {
        let found = self.find_index(&world.root_dir);
        let r = match found {
            Some(i) => {
                self.worlds[i] = world;
                proof {
                    assert forall|a: int, b: int| 0 <= a < b < self.worlds@.len() implies
                        #[trigger] self.root_at(a) != #[trigger] self.root_at(b) by {
                        assert(old(self).root_at(a) != old(self).root_at(b));
                        if a != i {
                            assert(self.root_at(a) == old(self).root_at(a));
                        }
                        if b != i {
                            assert(self.root_at(b) == old(self).root_at(b));
                        }
                    }
                    assert(self.wf());
                }
                i
            },
            None => {
                let i = self.worlds.len();
                self.worlds.push(world);
                proof {
                    assert forall|a: int, b: int| 0 <= a < b < self.worlds@.len() implies
                        #[trigger] self.root_at(a) != #[trigger] self.root_at(b) by {
                        assert(self.root_at(a) == old(self).root_at(a));
                        if b < i {
                            assert(self.root_at(b) == old(self).root_at(b));
                            assert(old(self).root_at(a) != old(self).root_at(b));
                        } else {
                            if self.root_at(a) == self.root_at(b) {
                                assert(old(self).has_root(self.root_at(b)));
                            }
                        }
                    }
                    assert(self.wf());
                }
                i
            },
        };
        proof {
            assert forall|k: Seq<Seq<char>>| final(self).has_root(k) == (old(self).has_root(k)
                || k == final(self).root_at(r as int)) by {
                if old(self).has_root(k) {
                    let j = choose|j: int|
                        0 <= j < old(self).count() && old(self).root_at(j) == k;
                    if j == r {
                        assert(self.root_at(r as int) == k);
                    } else {
                        assert(self.world_at(j) == old(self).world_at(j));
                        assert(self.root_at(j) == k);
                    }
                    assert(self.has_root(k));
                }
                if self.has_root(k) {
                    let j = choose|j: int| 0 <= j < self.count() && self.root_at(j) == k;
                    if j != r {
                        assert(old(self).root_at(j) == k);
                        assert(old(self).has_root(k));
                    }
                }
            }
        }
        r
    }

    /// Create and register a world for the single file `main_file`, rooted
    /// at the file's parent directory: the fallback when no descriptor-
    /// declared world owns the file. `main_text` carries the file's current
    /// text, `None` when it could not be read. Fails, registering nothing,
    /// exactly when the file has no parent directory or no text.
    pub fn new_world_from_path(
        &mut self,
        main_file: &AbsPath,
        main_text: Option<String>,
        fonts: &FontCatalog,
    ) -> (r: Option<usize>)
        requires
            old(self).wf(),
            fonts.wf(),
        ensures
            final(self).wf(),
            (r is Some) == (main_file@.len() > 0 && main_text is Some),
            r matches Some(i) ==> {
                &&& i < final(self).count()
                &&& final(self).world_at(i as int).root_dir@ == main_file@.subrange(
                    0,
                    main_file@.len() - 1,
                )
                &&& final(self).world_at(i as int).main_path@ == main_file@
                &&& final(self).world_at(i as int).sources.spec_get(main_file@) == Some(
                    main_text->0@,
                )
                &&& forall|j: int|
                    0 <= j < final(self).count() && j != i ==> #[trigger] final(self).world_at(j)
                        == old(self).world_at(j)
                &&& forall|k: Seq<Seq<char>>|
                    final(self).has_root(k) == (old(self).has_root(k) || k == main_file@.subrange(
                        0,
                        main_file@.len() - 1,
                    ))
            },
            r is None ==> *final(self) == *old(self),
    {
        let root_dir = match main_file.parent() {
            Some(p) => p,
            None => {
                return None;
            },
        };
        proof {
            assert(root_dir@ =~= main_file@.subrange(0, main_file@.len() - 1));
            assert(root_dir@.is_prefix_of(main_file@));
        }
        let world = LanguageServiceWorld::new(
            root_dir,
            main_file.clone_path(),
            main_text,
            fonts.duplicate(),
        );
        match world {
            Some(w) => Some(self.register(w)),
            None => None,
        }
    }

    /// The world owning `path`, created on demand: when no registered root
    /// is an ancestor of the path, synthesize a single-file world rooted at
    /// the path's parent directory, from the text the caller read for it.
    pub fn get_or_create(
        &mut self,
        path: &AbsPath,
        main_text: Option<String>,
        fonts: &FontCatalog,
    ) -> (r: Option<usize>)
        requires
            old(self).wf(),
            fonts.wf(),
        ensures
            final(self).wf(),
            (exists|j: int|
                0 <= j < old(self).count() && is_strict_ancestor(
                    #[trigger] old(self).root_at(j),
                    path@,
                )) ==> {
                &&& *final(self) == *old(self)
                &&& r matches Some(i) && is_strict_ancestor(final(self).root_at(i as int), path@)
            },
            !(exists|j: int|
                0 <= j < old(self).count() && is_strict_ancestor(
                    #[trigger] old(self).root_at(j),
                    path@,
                )) ==> {
                &&& (r is Some) == (path@.len() > 0 && main_text is Some)
                &&& r matches Some(i) ==> {
                    &&& i < final(self).count()
                    &&& final(self).world_at(i as int).main_path@ == path@
                    &&& final(self).world_at(i as int).root_dir@ == path@.subrange(
                        0,
                        path@.len() - 1,
                    )
                }
                &&& r is None ==> *final(self) == *old(self)
            },
    {
        let found = self.find_world(path);
        match found {
            Some(i) => Some(i),
            None => self.new_world_from_path(path, main_text, fonts),
        }
    }

    /// Construct and register one world per declared target, each paired
    /// with its main file's text (`None` when unreadable). A target whose
    /// main file does not lie at or under its declared root, or whose text
    /// is unavailable, is skipped and registers nothing. When several
    /// usable targets share a root, the later one wins: the last usable
    /// target declaring a root is the one whose world survives under it.
    /// Returns how many worlds were created.
    pub fn new_worlds(&mut self, targets: Vec<(Target, Option<String>)>, fonts: &FontCatalog) -> (r:
        u32)
        requires
            old(self).wf(),
            fonts.wf(),
            targets@.len() <= u32::MAX,
        ensures
            final(self).wf(),
            r as int == count_ok(targets@),
            forall|k: Seq<Seq<char>>|
                #[trigger] final(self).has_root(k) == (old(self).has_root(k) || declares_root(
                    targets@,
                    k,
                )),
            forall|j: int|
                #[trigger] last_usable_with_root(targets@, j) ==> exists|wi: int|
                    0 <= wi < final(self).count() && world_built_from(
                        #[trigger] final(self).world_at(wi),
                        targets@[j],
                    ),
    {
        let mut counter: u32 = 0;
        let mut i: usize = 0;
        while i < targets.len()
            invariant
                self.wf(),
                fonts.wf(),
                i <= targets@.len(),
                targets@.len() <= u32::MAX,
                counter <= i,
                counter as int == count_ok(targets@.subrange(0, i as int)),
                forall|k: Seq<Seq<char>>|
                    #[trigger] self.has_root(k) == (old(self).has_root(k) || declares_root(
                        targets@.subrange(0, i as int),
                        k,
                    )),
                forall|j: int|
                    #[trigger] last_usable_with_root(targets@.subrange(0, i as int), j)
                        ==> exists|wi: int|
                        0 <= wi < self.count() && world_built_from(
                            #[trigger] self.world_at(wi),
                            targets@.subrange(0, i as int)[j],
                        ),
            decreases targets@.len() - i,
        {
            let ghost pre = *self;
            let ghost done = targets@.subrange(0, i as int);
            let (target, text) = &targets[i];
            let ghost ok = target_ok(targets@[i as int].0, targets@[i as int].1);
            let ghost mut reg_view: Option<int> = None;
            let usable = target.main_file.has_prefix(&target.root_dir);
            let owned_text = if usable {
                match text {
                    Some(t) => Some(t.clone()),
                    None => None,
                }
            } else {
                None
            };
            match owned_text {
                Some(t) => {
                    let world = LanguageServiceWorld::new(
                        target.root_dir.clone_path(),
                        target.main_file.clone_path(),
                        Some(t),
                        fonts.duplicate(),
                    );
                    match world {
                        Some(w) => {
                            let ghost w0 = w;
                            let idx = self.register(w);
                            counter += 1;
                            proof {
                                reg_view = Some(idx as int);
                                assert(world_built_from(
                                    self.world_at(idx as int),
                                    targets@[i as int],
                                ));
                            }
                        },
                        None => {
                            proof {
                                assert(false);
                            }
                        },
                    }
                },
                None => {},
            }
            proof {
                let stepped = targets@.subrange(0, i + 1);
                assert(stepped.drop_last() =~= done);
                assert(stepped.last() == targets@[i as int]);
                assert(counter as int == count_ok(stepped));
                assert forall|k: Seq<Seq<char>>| #[trigger] self.has_root(k) == (old(
                    self,
                ).has_root(k) || declares_root(stepped, k)) by {
                    if declares_root(stepped, k) {
                        let j = choose|j: int|
                            0 <= j < stepped.len() && target_ok(
                                (#[trigger] stepped[j]).0,
                                stepped[j].1,
                            ) && stepped[j].0.root_dir@ == k;
                        if j < done.len() {
                            assert(declares_root(done, k));
                        }
                    }
                    if declares_root(done, k) {
                        let j = choose|j: int|
                            0 <= j < done.len() && target_ok(
                                (#[trigger] done[j]).0,
                                done[j].1,
                            ) && done[j].0.root_dir@ == k;
                        assert(stepped[j] == done[j]);
                        assert(declares_root(stepped, k));
                    }
                    if ok && targets@[i as int].0.root_dir@ == k {
                        assert(declares_root(stepped, k));
                    }
                }
                assert forall|j: int| #[trigger] last_usable_with_root(stepped, j) implies exists|
                    wi: int,
                |
                    0 <= wi < self.count() && world_built_from(
                        #[trigger] self.world_at(wi),
                        stepped[j],
                    ) by {
                    if j == i as int {
                        assert(target_ok(stepped[j].0, stepped[j].1));
                        assert(ok);
                        let ri = reg_view->0;
                        assert(0 <= ri < self.count());
                        assert(world_built_from(self.world_at(ri), stepped[j]));
                    } else {
                        assert(forall|l: int|
                            j < l < done.len() ==> #[trigger] stepped[l] == done[l]);
                        assert(last_usable_with_root(done, j));
                        let wi = choose|wi: int|
                            0 <= wi < pre.count() && world_built_from(
                                #[trigger] pre.world_at(wi),
                                done[j],
                            );
                        match reg_view {
                            Some(ri) => {
                                // the world registered this step carries the
                                // current target's root, which differs from
                                // done[j]'s: done[j] stays the last usable
                                // holder of its root
                                assert(ok);
                                assert(stepped[i as int] == targets@[i as int]);
                                assert(!(target_ok(stepped[i as int].0, stepped[i as int].1)
                                    && stepped[i as int].0.root_dir@ == stepped[j].0.root_dir@));
                                assert(targets@[i as int].0.root_dir@ != done[j].0.root_dir@);
                                assert(pre.world_at(wi).root_dir@ == done[j].0.root_dir@);
                                if pre.has_root(targets@[i as int].0.root_dir@) {
                                    assert(pre.root_at(ri) == targets@[i as int].0.root_dir@);
                                } else {
                                    assert(ri == pre.count());
                                }
                                assert(wi != ri);
                                assert(self.world_at(wi) == pre.world_at(wi));
                            },
                            None => {
                                assert(*self == pre);
                            },
                        }
                        assert(world_built_from(self.world_at(wi), stepped[j]));
                    }
                }
            }
            i += 1;
        }
        proof {
            assert(targets@.subrange(0, targets@.len() as int) =~= targets@);
        }
        counter
    }

    /// Find the world owning `path`: among the registered roots that are
    /// strict ancestors of `path`, the nearest — that is, the longest —
    /// wins. `None` when no registered root lies above the path.
    pub fn find_world(&self, path: &AbsPath) -> (r: Option<usize>)
        requires
            self.wf(),
        ensures
            r matches Some(i) ==> {
                &&& i < self.count()
                &&& is_strict_ancestor(self.root_at(i as int), path@)
                &&& forall|j: int|
                    0 <= j < self.count() && is_strict_ancestor(
                        #[trigger] self.root_at(j),
                        path@,
                    ) ==> self.root_at(j).len() <= self.root_at(i as int).len()
            },
            r is None ==> forall|j: int|
                0 <= j < self.count() ==> !is_strict_ancestor(#[trigger] self.root_at(j), path@),
    {
        let mut best: Option<usize> = None;
        let mut j: usize = 0;
        while j < self.worlds.len()
            invariant
                j <= self.worlds@.len(),
                best matches Some(b) ==> {
                    &&& b < self.worlds@.len()
                    &&& is_strict_ancestor(self.root_at(b as int), path@)
                    &&& forall|k: int|
                        0 <= k < j && is_strict_ancestor(#[trigger] self.root_at(k), path@)
                            ==> self.root_at(k).len() <= self.root_at(b as int).len()
                },
                best is None ==> forall|k: int|
                    0 <= k < j ==> !is_strict_ancestor(#[trigger] self.root_at(k), path@),
            decreases self.worlds@.len() - j,
        {
            if path.has_strict_ancestor(&self.worlds[j].root_dir) {
                let better = match best {
                    Some(b) => self.worlds[b].root_dir.seg_count()
                        < self.worlds[j].root_dir.seg_count(),
                    None => true,
                };
                if better {
                    best = Some(j);
                }
            }
            j += 1;
        }
        best
    }
}

} // verus!
