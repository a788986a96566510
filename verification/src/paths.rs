//! Absolute filesystem paths, modelled as sequences of components.
//!
//! The service never interprets a path against the host filesystem itself:
//! it only joins, compares and walks components. A path is therefore kept as
//! the list of its components, and `/a/b` is the path with components
//! `["a", "b"]`; the filesystem root is the empty list.

use vstd::prelude::*;
use crate::text::find_from;
use crate::text::find_char;
use crate::text::lemma_find_from;

verus! {

/// An absolute filesystem path: the components between the separators, in
/// order, with the filesystem root as the empty sequence.
pub struct AbsPath {
    pub segs: Vec<String>,
}

impl View for AbsPath {
    type V = Seq<Seq<char>>;

    open spec fn view(&self) -> Seq<Seq<char>> {
        self.segs.deep_view()
    }
}

/// `a` names a directory that lies strictly above the path `b`.
pub open spec fn is_strict_ancestor(a: Seq<Seq<char>>, b: Seq<Seq<char>>) -> bool {
    a.is_prefix_of(b) && a.len() < b.len()
}

impl AbsPath {
    /// The filesystem root.
    pub fn fs_root() -> (r: AbsPath)
        ensures
            r@ == Seq::<Seq<char>>::empty(),
    {
        let r = AbsPath { segs: Vec::new() };
        assert(r@ =~= Seq::<Seq<char>>::empty());
        r
    }

    pub fn from_segs(segs: Vec<String>) -> (r: AbsPath)
        ensures
            r@ == segs.deep_view(),
    {
        AbsPath { segs }
    }

    pub fn seg_count(&self) -> (n: usize)
        ensures
            n == self@.len(),
    {
        self.segs.len()
    }

    pub fn clone_path(&self) -> (r: AbsPath)
        ensures
            r@ == self@,
    {
        let mut segs: Vec<String> = Vec::new();
        let mut i: usize = 0;
        while i < self.segs.len()
            invariant
                i <= self.segs.len(),
                segs@.len() == i,
                forall|k: int| 0 <= k < i ==> #[trigger] segs@[k]@ == self.segs@[k]@,
            decreases self.segs.len() - i,
        {
            segs.push(self.segs[i].clone());
            i += 1;
        }
        assert forall|k: int| 0 <= k < self@.len() implies segs.deep_view()[k] == self@[k] by {
            assert(segs@[k]@ == self.segs@[k]@);
        }
        assert(segs.deep_view() =~= self@);
        AbsPath { segs }
    }

    /// The directory one level up, or `None` for the filesystem root.
    pub fn parent(&self) -> (r: Option<AbsPath>)
        ensures
            self@.len() == 0 ==> r is None,
            self@.len() > 0 ==> (r matches Some(p) && p@ == self@.subrange(
                0,
                self@.len() - 1,
            )),
    {
        if self.segs.len() == 0 {
            None
        } else {
            let mut p = self.clone_path();
            p.segs.pop();
            assert(p@ =~= self@.subrange(0, self@.len() - 1));
            Some(p)
        }
    }

    /// The path reached by descending from `self` through the relative
    /// components `rel`, in order.
    pub fn join(&self, rel: &Vec<String>) -> (r: AbsPath)
        ensures
            r@ == self@ + rel.deep_view(),
    {
        let mut r = self.clone_path();
        let mut i: usize = 0;
        while i < rel.len()
            invariant
                i <= rel.len(),
                r.segs@.len() == self@.len() + i,
                forall|k: int| 0 <= k < self@.len() ==> #[trigger] r.segs@[k]@ == self@[k],
                forall|k: int|
                    0 <= k < i ==> #[trigger] r.segs@[self@.len() + k]@ == rel.deep_view()[k],
            decreases rel.len() - i,
        {
            r.segs.push(rel[i].clone());
            i += 1;
        }
        assert forall|k: int| 0 <= k < r@.len() implies r@[k] == (self@ + rel.deep_view())[k] by {
            if k < self@.len() {
                assert(r.segs@[k]@ == self@[k]);
            } else {
                assert(r.segs@[self@.len() + (k - self@.len())]@ == rel.deep_view()[k - self@.len()]);
            }
        }
        assert(r@ =~= self@ + rel.deep_view());
        r
    }

    /// Whether `prefix` names `self` or a directory above it.
    pub fn has_prefix(&self, prefix: &AbsPath) -> (r: bool)
        ensures
            r == prefix@.is_prefix_of(self@),
    {
        if prefix.segs.len() > self.segs.len() {
            return false;
        }
        let mut i: usize = 0;
        while i < prefix.segs.len()
            invariant
                i <= prefix.segs.len() <= self.segs.len(),
                forall|j: int| 0 <= j < i ==> prefix@[j] == self@[j],
            decreases prefix.segs.len() - i,
        {
            if !(prefix.segs[i] == self.segs[i]) {
                assert(prefix@[i as int] != self@[i as int]);
                assert(!prefix@.is_prefix_of(self@));
                return false;
            }
            assert(prefix@[i as int] == self@[i as int]);
            i += 1;
        }
        assert(prefix@ =~= self@.subrange(0, prefix@.len() as int));
        true
    }

    /// Whether `ancestor` names a directory strictly above `self`.
    pub fn has_strict_ancestor(&self, ancestor: &AbsPath) -> (r: bool)
        ensures
            r == is_strict_ancestor(ancestor@, self@),
    {
        ancestor.segs.len() < self.segs.len() && self.has_prefix(ancestor)
    }

    pub fn path_eq(&self, other: &AbsPath) -> (r: bool)
        ensures
            r == (self@ == other@),
    {
        if self.segs.len() == other.segs.len() && self.has_prefix(other) {
            assert(self@ =~= other@);
            true
        } else {
            assert(self@ == other@ ==> other@.is_prefix_of(self@));
            false
        }
    }
}

/// The components of `s` after `from`, splitting at every `'/'`. Every text
/// splits into at least one (possibly empty) component.
pub open spec fn split_from(s: Seq<char>, from: int) -> Seq<Seq<char>>
    decreases s.len() - from,
    via split_from_decreases
{
    if !(0 <= from <= s.len()) {
        Seq::empty()
    } else {
        let i = find_from(s, from, '/');
        if i < s.len() {
            seq![s.subrange(from, i)] + split_from(s, i + 1)
        } else {
            seq![s.subrange(from, s.len() as int)]
        }
    }
}

#[via_fn]
proof fn split_from_decreases(s: Seq<char>, from: int) {
    if 0 <= from <= s.len() {
        lemma_find_from(s, from, '/');
    }
}

/// The components of `s`, splitting at every `'/'`.
pub open spec fn split_path(s: Seq<char>) -> Seq<Seq<char>> {
    split_from(s, 0)
}

/// A path component this crate accepts: non-empty, no separator, and not one
/// of the two relative navigation names.
pub open spec fn seg_ok(g: Seq<char>) -> bool {
    g.len() > 0 && g != "."@ && g != ".."@
}

/// A well-formed relative path: at least one component, and every component
/// acceptable. A leading, trailing or doubled separator yields an empty
/// component, so those shapes are rejected by this predicate too.
pub open spec fn is_valid_rel(s: Seq<char>) -> bool {
    forall|i: int| 0 <= i < split_path(s).len() ==> seg_ok(#[trigger] split_path(s)[i])
}

/// A well-formed absolute path: a single `'/'`, or `'/'` followed by a
/// well-formed relative path.
pub open spec fn is_valid_abs(s: Seq<char>) -> bool {
    s.len() > 0 && s[0] == '/' && (s.len() == 1 || is_valid_rel(s.subrange(1, s.len() as int)))
}

/// Split a relative path into its components, or `None` when the text is not
/// a well-formed relative path.
pub fn parse_rel_path(s: &str) -> (r: Option<Vec<String>>)
    ensures
        (r is Some) == is_valid_rel(s@),
        r matches Some(v) ==> v.deep_view() == split_path(s@),
{
    let n = s.unicode_len();
    let mut v: Vec<String> = Vec::new();
    let mut from: usize = 0;
    loop
        invariant
            from <= n,
            n == s@.len(),
            split_path(s@) == v.deep_view() + split_from(s@, from as int),
            forall|j: int| 0 <= j < v@.len() ==> seg_ok(#[trigger] v@[j]@),
        decreases n - from,
    {
        proof {
            lemma_find_from(s@, from as int, '/');
        }
        let i = find_char(s, from, '/');
        let ghost seg = s@.subrange(from as int, i as int);
        let ghost v0 = v@;
        let ghost d0 = v.deep_view();
        assert(split_from(s@, from as int)[0] == seg);
        assert(split_from(s@, from as int).len() >= 1);
        let bad = if i == from {
            true
        } else if i - from == 1 && s.get_char(from) == '.' {
            proof {
                reveal_strlit(".");
                assert(seg =~= "."@);
            }
            true
        } else if i - from == 2 && s.get_char(from) == '.' && s.get_char(from + 1) == '.' {
            proof {
                reveal_strlit("..");
                assert(seg =~= ".."@);
            }
            true
        } else {
            proof {
                reveal_strlit(".");
                reveal_strlit("..");
                if seg == "."@ {
                    assert(seg.len() == 1 && seg[0] == s@[from as int]);
                }
                if seg == ".."@ {
                    assert(seg.len() == 2 && seg[0] == s@[from as int] && seg[1] == s@[from + 1]);
                }
            }
            false
        };
        if bad {
            assert(split_path(s@)[d0.len() as int] == seg);
            assert(!seg_ok(seg));
            return None;
        }
        v.push(String::from_str(s.substring_char(from, i)));
        proof {
            assert(v@[d0.len() as int]@ == seg);
            assert forall|k: int| 0 <= k < v.deep_view().len() implies v.deep_view()[k] == d0.push(
                seg,
            )[k] by {
                if k < d0.len() {
                    assert(v@[k] == v0[k]);
                    assert(d0[k] == v0[k]@);
                }
            }
            assert(v.deep_view() =~= d0.push(seg));
        }
        if i == n {
            assert(split_from(s@, from as int) =~= seq![seg]);
            assert(v.deep_view() =~= split_path(s@));
            assert forall|j: int| 0 <= j < split_path(s@).len() implies seg_ok(
                #[trigger] split_path(s@)[j],
            ) by {
                assert(split_path(s@)[j] == v@[j]@);
            }
            return Some(v);
        }
        assert(split_from(s@, from as int) =~= seq![seg] + split_from(s@, i + 1));
        assert(v.deep_view() + split_from(s@, i + 1) =~= split_path(s@));
        from = i + 1;
    }
}

/// Parse an absolute path written with `'/'` separators, or `None` when the
/// text is not a well-formed absolute path.
pub fn parse_abs_path(s: &str) -> (r: Option<AbsPath>)
    ensures
        (r is Some) == is_valid_abs(s@),
        r matches Some(p) ==> p@ == (if s@.len() == 1 {
            Seq::<Seq<char>>::empty()
        } else {
            split_path(s@.subrange(1, s@.len() as int))
        }),
{
    let n = s.unicode_len();
    if n == 0 || s.get_char(0) != '/' {
        return None;
    }
    if n == 1 {
        return Some(AbsPath::fs_root());
    }
    let rest = s.substring_char(1, n);
    match parse_rel_path(rest) {
        Some(v) => Some(AbsPath::from_segs(v)),
        None => None,
    }
}

} // verus!
