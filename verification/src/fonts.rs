//! The font catalog: a queryable metadata index over embedded and
//! system-discovered fonts, with lazily materialized, memoize-once byte
//! buffers.
//!
//! Construction pushes fonts in a fixed order — embedded fonts first, then
//! every discovered face — and the index space is exactly that concatenation
//! order: resolution by index never reorders or skips.

use vstd::prelude::*;
use crate::paths::AbsPath;

verus! {

/// The slope of a font face.
#[derive(Debug, Clone, Copy, PartialEq, Eq, Structural)]
pub enum FontStyle {
    Normal,
    Italic,
    Oblique,
}

/// Metadata about one font face, as probing the raw font bytes reports it.
pub struct FontMeta {
    pub family: String,
    pub style: FontStyle,
    pub weight: u16,
}

/// The mathematical value of a [`FontMeta`].
pub struct FontMetaV {
    pub family: Seq<char>,
    pub style: FontStyle,
    pub weight: u16,
}

impl View for FontMeta {
    type V = FontMetaV;

    open spec fn view(&self) -> FontMetaV {
        FontMetaV { family: self.family@, style: self.style, weight: self.weight }
    }
}

impl FontMeta {
    pub fn clone_meta(&self) -> (r: FontMeta)
        ensures
            r@ == self@,
    {
        FontMeta { family: self.family.clone(), style: self.style, weight: self.weight }
    }
}

/// Storage state of one font's byte buffer. Materialization happens at most
/// once: a buffer, once read, is never re-read, and a failed read resolves to
/// [`FontSlot::Absent`] and is not retried within a process lifetime.
pub enum FontSlot {
    /// The bytes are resident (embedded fonts start here).
    Loaded(Vec<u8>),
    /// Discovered on disk but not read yet.
    Unloaded,
    /// A read was attempted and failed; the font stays missing.
    Absent,
}

/// One entry of the catalog: fixed metadata, the face's provenance, and the
/// lazily populated byte buffer.
pub struct LazyFont {
    pub meta: FontMeta,
    pub path: AbsPath,
    pub index: u32,
    pub font: FontSlot,
}

impl LazyFont {
    /// The font's bytes, if they have been materialized.
    pub fn get(&self) -> (r: Option<&Vec<u8>>)
        ensures
            (r is Some) == (self.font is Loaded),
            r matches Some(d) ==> (self.font matches FontSlot::Loaded(b) && d@ == b@),
    {
        match &self.font {
            FontSlot::Loaded(d) => Some(d),
            _ => None,
        }
    }
}

/// The ordered font index: metadata (the font book) and the font entries,
/// in one position-stable order fixed at construction.
pub struct FontCatalog {
    book: Vec<FontMeta>,
    fonts: Vec<LazyFont>,
    discovery_started: bool,
}

impl FontCatalog {
    pub closed spec fn count(self) -> nat {
        self.book@.len()
    }

    /// Entry `i` of the font book.
    pub closed spec fn meta_at(self, i: int) -> FontMetaV {
        self.book@[i]@
    }

    /// Entry `i` of the font storage.
    pub closed spec fn entry_at(self, i: int) -> LazyFont {
        self.fonts@[i]
    }

    /// Well-formed: the font book and the font entries correspond 1:1, since
    /// callers address fonts purely by index.
    pub closed spec fn wf(self) -> bool {
        &&& self.book@.len() == self.fonts@.len()
        &&& forall|i: int|
            0 <= i < self.book@.len() ==> #[trigger] self.fonts@[i].meta@ == self.book@[i]@
    }

    /// Whether a discovered face has been appended yet. Embedded fonts may
    /// only precede the first one, so the guaranteed fallback set always
    /// occupies the leading indices in its fixed order.
    pub closed spec fn in_discovery(self) -> bool {
        self.discovery_started
    }

    pub fn new() -> (r: FontCatalog)
        ensures
            r.wf(),
            r.count() == 0,
            !r.in_discovery(),
    {
        FontCatalog { book: Vec::new(), fonts: Vec::new(), discovery_started: false }
    }

    /// Append an embedded font: already resident, eagerly wrapped.
    /// Embedded fonts precede every discovered face.
    pub fn push_embedded(&mut self, meta: FontMeta, data: Vec<u8>)
        requires
            old(self).wf(),
            !old(self).in_discovery(),
        ensures
            final(self).wf(),
            !final(self).in_discovery(),
            final(self).count() == old(self).count() + 1,
            final(self).meta_at(old(self).count() as int) == meta@,
            final(self).entry_at(old(self).count() as int).font matches FontSlot::Loaded(b)
                && b@ == data@,
            forall|i: int|
                0 <= i < old(self).count() ==> #[trigger] final(self).meta_at(i) == old(
                    self,
                ).meta_at(i),
            forall|i: int|
                0 <= i < old(self).count() ==> #[trigger] final(self).entry_at(i) == old(
                    self,
                ).entry_at(i),
    {
        let entry_meta = meta.clone_meta();
        self.book.push(meta);
        self.fonts.push(
            LazyFont {
                meta: entry_meta,
                path: AbsPath::fs_root(),
                index: 0,
                font: FontSlot::Loaded(data),
            },
        );
    }

    /// Append a font discovered on the filesystem: a path and a face index,
    /// materialized on first access.
    pub fn push_discovered(&mut self, meta: FontMeta, path: AbsPath, index: u32)
        requires
            old(self).wf(),
        ensures
            final(self).wf(),
            final(self).in_discovery(),
            final(self).count() == old(self).count() + 1,
            final(self).meta_at(old(self).count() as int) == meta@,
            final(self).entry_at(old(self).count() as int).font is Unloaded,
            final(self).entry_at(old(self).count() as int).path@ == path@,
            final(self).entry_at(old(self).count() as int).index == index,
            forall|i: int|
                0 <= i < old(self).count() ==> #[trigger] final(self).meta_at(i) == old(
                    self,
                ).meta_at(i),
            forall|i: int|
                0 <= i < old(self).count() ==> #[trigger] final(self).entry_at(i) == old(
                    self,
                ).entry_at(i),
    {
        let entry_meta = meta.clone_meta();
        self.book.push(meta);
        self.fonts.push(LazyFont { meta: entry_meta, path, index, font: FontSlot::Unloaded });
        self.discovery_started = true;
    }

    /// The ordered font book. Its order is fixed at construction and matches
    /// the font entries 1:1.
    pub fn metadata(&self) -> (r: &Vec<FontMeta>)
        ensures
            r@.len() == self.count(),
            forall|i: int| 0 <= i < self.count() ==> #[trigger] r@[i]@ == self.meta_at(i),
    {
        &self.book
    }

    pub fn font_count(&self) -> (n: usize)
        ensures
            n == self.count(),
    {
        self.book.len()
    }

    /// The bytes of font `i`, if they have been materialized.
    pub fn resolve(&self, i: usize) -> (r: Option<&Vec<u8>>)
        requires
            self.wf(),
            i < self.count(),
        ensures
            (r is Some) == (self.entry_at(i as int).font is Loaded),
            r matches Some(d) ==> (self.entry_at(i as int).font matches FontSlot::Loaded(b) && d@
                == b@),
    {
        self.fonts[i].get()
    }

    /// The metadata of the font that index `i` resolves to.
    pub fn resolve_meta(&self, i: usize) -> (r: &FontMeta)
        requires
            self.wf(),
            i < self.count(),
        ensures
            r@ == self.meta_at(i as int),
    {
        &self.fonts[i].meta
    }

    /// The provenance of font `i`, if it still awaits materialization: the
    /// file to read and the face index within it.
    pub fn pending(&self, i: usize) -> (r: Option<(AbsPath, u32)>)
        requires
            self.wf(),
            i < self.count(),
        ensures
            (r is Some) == (self.entry_at(i as int).font is Unloaded),
            r matches Some(p) ==> p.0@ == self.entry_at(i as int).path@ && p.1 == self.entry_at(
                i as int,
            ).index,
    {
        match &self.fonts[i].font {
            FontSlot::Unloaded => Some((self.fonts[i].path.clone_path(), self.fonts[i].index)),
            _ => None,
        }
    }

    /// Record the outcome of reading font `i` from disk. The update is
    /// idempotent in the memoize-once sense: it only moves an unloaded slot
    /// to loaded or absent; once a slot is loaded or absent, every later
    /// outcome is ignored, so the font is never re-read and a failed read is
    /// not retried.
    pub fn materialize(&mut self, i: usize, data: Option<Vec<u8>>)
        requires
            old(self).wf(),
            i < old(self).count(),
        ensures
            final(self).wf(),
            final(self).count() == old(self).count(),
            final(self).in_discovery() == old(self).in_discovery(),
            forall|j: int|
                0 <= j < old(self).count() ==> #[trigger] final(self).meta_at(j) == old(
                    self,
                ).meta_at(j),
            forall|j: int|
                0 <= j < old(self).count() && j != i ==> #[trigger] final(self).entry_at(j) == old(
                    self,
                ).entry_at(j),
            old(self).entry_at(i as int).font is Unloaded ==> {
                &&& final(self).entry_at(i as int).meta@ == old(self).entry_at(i as int).meta@
                &&& final(self).entry_at(i as int).path@ == old(self).entry_at(i as int).path@
                &&& final(self).entry_at(i as int).index == old(self).entry_at(i as int).index
                &&& match data {
                    Some(d) => final(self).entry_at(i as int).font matches FontSlot::Loaded(b)
                        && b@ == d@,
                    None => final(self).entry_at(i as int).font is Absent,
                }
            },
            !(old(self).entry_at(i as int).font is Unloaded) ==> final(self).entry_at(i as int)
                == old(self).entry_at(i as int),
    {
        let needs = match &self.fonts[i].font {
            FontSlot::Unloaded => true,
            _ => false,
        };
        if needs {
            let meta = self.fonts[i].meta.clone_meta();
            let path = self.fonts[i].path.clone_path();
            let index = self.fonts[i].index;
            let slot = match data {
                Some(d) => FontSlot::Loaded(d),
                None => FontSlot::Absent,
            };
            self.fonts[i] = LazyFont { meta, path, index, font: slot };
        }
    }
}

/// Append a batch of embedded fonts in their given, deterministic order:
/// the guaranteed fallback set that construction adds before any discovered
/// face, so that its indices never depend on what the host has installed.
pub fn add_embedded_fonts(catalog: &mut FontCatalog, embedded: Vec<(FontMeta, Vec<u8>)>)
    requires
        old(catalog).wf(),
        !old(catalog).in_discovery(),
    ensures
        final(catalog).wf(),
        !final(catalog).in_discovery(),
        final(catalog).count() == old(catalog).count() + embedded@.len(),
        forall|i: int|
            0 <= i < old(catalog).count() ==> #[trigger] final(catalog).meta_at(i) == old(
                catalog,
            ).meta_at(i),
        forall|i: int|
            0 <= i < old(catalog).count() ==> #[trigger] final(catalog).entry_at(i) == old(
                catalog,
            ).entry_at(i),
        forall|k: int|
            0 <= k < embedded@.len() ==> #[trigger] final(catalog).meta_at(
                old(catalog).count() + k,
            ) == embedded@[k].0@,
        forall|k: int|
            0 <= k < embedded@.len() ==> (#[trigger] final(catalog).entry_at(
                old(catalog).count() + k,
            ).font matches FontSlot::Loaded(b) && b@ == embedded@[k].1@),
{
    let base = catalog.font_count();
    let mut rest = embedded;
    let mut k: usize = 0;
    let total = rest.len();
    let ghost all = rest@;
    while rest.len() > 0
        invariant
            catalog.wf(),
            !catalog.in_discovery(),
            all.len() == total,
            k + rest@.len() == all.len(),
            rest@ =~= all.subrange(k as int, all.len() as int),
            catalog.count() == old(catalog).count() + k,
            base == old(catalog).count(),
            forall|i: int|
                0 <= i < old(catalog).count() ==> #[trigger] catalog.meta_at(i) == old(
                    catalog,
                ).meta_at(i),
            forall|i: int|
                0 <= i < old(catalog).count() ==> #[trigger] catalog.entry_at(i) == old(
                    catalog,
                ).entry_at(i),
            forall|j: int|
                0 <= j < k ==> #[trigger] catalog.meta_at(base + j) == all[j].0@,
            forall|j: int|
                0 <= j < k ==> (#[trigger] catalog.entry_at(base + j).font matches
                    FontSlot::Loaded(b) && b@ == all[j].1@),
        decreases rest@.len(),
    {
        let (meta, data) = rest.remove(0);
        assert(all[k as int] == (meta, data));
        catalog.push_embedded(meta, data);
        assert(rest@ =~= all.subrange(k + 1, all.len() as int));
        k += 1;
    }
}

/// `a` holds the same catalog entry as `b`: same metadata, same provenance,
/// and the same byte state.
pub open spec fn entry_like(a: LazyFont, b: LazyFont) -> bool {
    &&& a.meta@ == b.meta@
    &&& a.path@ == b.path@
    &&& a.index == b.index
    &&& match (a.font, b.font) {
        (FontSlot::Loaded(x), FontSlot::Loaded(y)) => x@ == y@,
        (FontSlot::Unloaded, FontSlot::Unloaded) => true,
        (FontSlot::Absent, FontSlot::Absent) => true,
        _ => false,
    }
}

fn copy_bytes(d: &Vec<u8>) -> (r: Vec<u8>)
    ensures
        r@ == d@,
{
    let mut r: Vec<u8> = Vec::new();
    let mut i: usize = 0;
    while i < d.len()
        invariant
            i <= d@.len(),
            r@ == d@.subrange(0, i as int),
        decreases d@.len() - i,
    {
        r.push(d[i]);
        assert(r@ =~= d@.subrange(0, i + 1));
        i += 1;
    }
    assert(r@ =~= d@);
    r
}

impl FontCatalog {
    /// An independent copy of the catalog, entry for entry. Font byte
    /// buffers, once materialized, are immutable, so worlds share one
    /// discovered catalog by copying it.
    pub fn duplicate(&self) -> (r: FontCatalog)
        requires
            self.wf(),
        ensures
            r.wf(),
            r.count() == self.count(),
            r.in_discovery() == self.in_discovery(),
            forall|i: int| 0 <= i < self.count() ==> #[trigger] r.meta_at(i) == self.meta_at(i),
            forall|i: int|
                0 <= i < self.count() ==> entry_like(#[trigger] r.entry_at(i), self.entry_at(i)),
    {
        let mut book: Vec<FontMeta> = Vec::new();
        let mut fonts: Vec<LazyFont> = Vec::new();
        let mut i: usize = 0;
        while i < self.book.len()
            invariant
                self.wf(),
                i <= self.book@.len(),
                book@.len() == i,
                fonts@.len() == i,
                forall|k: int| 0 <= k < i ==> #[trigger] book@[k]@ == self.meta_at(k),
                forall|k: int| 0 <= k < i ==> entry_like(#[trigger] fonts@[k], self.entry_at(k)),
            decreases self.book@.len() - i,
        {
            book.push(self.book[i].clone_meta());
            let slot = match &self.fonts[i].font {
                FontSlot::Loaded(d) => FontSlot::Loaded(copy_bytes(d)),
                FontSlot::Unloaded => FontSlot::Unloaded,
                FontSlot::Absent => FontSlot::Absent,
            };
            fonts.push(
                LazyFont {
                    meta: self.fonts[i].meta.clone_meta(),
                    path: self.fonts[i].path.clone_path(),
                    index: self.fonts[i].index,
                    font: slot,
                },
            );
            i += 1;
        }
        FontCatalog { book, fonts, discovery_started: self.discovery_started }
    }
}

/// Law (font index stability): the metadata of the font entry that index `i`
/// resolves to is exactly entry `i` of the font book, for every valid `i` of
/// every well-formed catalog — however the catalog was built up and however
/// its entries were materialized since.
pub proof fn lemma_font_index_stable(c: FontCatalog, i: int)
    requires
        c.wf(),
        0 <= i < c.count(),
    ensures
        c.entry_at(i).meta@ == c.meta_at(i),
{
}

} // verus!
