//! The multi-page glyph atlas: rasterized glyphs are packed into
//! fixed-size pages with a one-pixel margin, cached for the atlas's
//! lifetime, and drained as ready-to-render entries.

use vstd::prelude::*;
use etagere::AtlasAllocator;

verus! {

#[verifier::external_type_specification]
#[verifier::external_body]
pub struct ExAtlasAllocator(AtlasAllocator);

/// The width a shelf-pack allocator was created with.
pub uninterp spec fn atlas_width(atlas: AtlasAllocator) -> int;

/// The height a shelf-pack allocator was created with.
pub uninterp spec fn atlas_height(atlas: AtlasAllocator) -> int;

/// Whether a shelf-pack allocator still holds no allocation at all.
pub uninterp spec fn atlas_is_empty(atlas: AtlasAllocator) -> bool;

/// Relies on `etagere::AtlasAllocator::new`: builds an empty shelf-pack
/// allocator of the given size, holding one full-height shelf with one
/// full-width free slot. The size bounds keep the constructor's own
/// size assertions satisfied.
#[verifier::external_body]
fn atlas_allocator_new(width: u32, height: u32) -> (r: AtlasAllocator)
    requires
        1 <= width <= 0xffff,
        1 <= height <= 0xffff,
        width * height <= 0x7fff_ffff,
    ensures
        atlas_width(r) == width,
        atlas_height(r) == height,
        atlas_is_empty(r),
{
    AtlasAllocator::new(etagere::size2(width as i32, height as i32))
}

/// Relies on `etagere::AtlasAllocator::allocate`: a returned rectangle
/// lies inside the atlas and spans at least the requested size, and the
/// atlas keeps its size whether or not the allocation succeeds.
///
/// The height bound leaves headroom for the packer's shelf-split
/// threshold, eight, which it adds to the (64-aligned, capped) request
/// height in sixteen-bit arithmetic.
///
/// On an allocator that holds nothing yet, a fitting request is
/// granted: the single initial shelf spans the full height with one
/// free slot of the full width, so the first-fit scan accepts it. The
/// one exception is an atlas height of exactly 0xffff, which the scan's
/// initial best-height sentinel excludes, so that case is left out of
/// the promise.
#[verifier::external_body]
fn atlas_allocator_allocate(atlas: &mut AtlasAllocator, width: u32, height: u32) -> (r: Option<
    (u32, u32),
>)
    requires
        width <= 0xffff,
        height <= 0xfff7,
    ensures
        atlas_width(*final(atlas)) == atlas_width(*old(atlas)),
        atlas_height(*final(atlas)) == atlas_height(*old(atlas)),
        r matches Some(origin) ==> origin.0 + width <= atlas_width(*old(atlas)) && origin.1
            + height <= atlas_height(*old(atlas)),
        atlas_is_empty(*old(atlas)) && 1 <= width && width <= atlas_width(*old(atlas)) && 1
            <= height && height <= atlas_height(*old(atlas)) && atlas_height(*old(atlas))
            <= 0xfffe ==> r is Some,
{
    atlas.allocate(etagere::size2(width as i32, height as i32)).map(
        |allocation| {
            let origin = allocation.rectangle.min;
            (origin.x as u32, origin.y as u32)
        },
    )
}

/// Identifies a font, glyph shape and rasterization bucket: the cache
/// key of the atlas. The size is the caller's integer bucket for the
/// pixel size (for example the bit pattern of the size it rasterizes
/// at).
#[derive(Debug, Default, Clone, Copy, PartialEq, Eq, Structural)]
pub struct GlyphKey {
    pub font: usize,
    pub glyph: u16,
    pub size: u32,
}

/// A pixel rectangle inside one atlas page.
#[derive(Debug, Default, Clone, Copy, PartialEq, Eq, Structural)]
pub struct GlyphRectangle {
    pub x: u32,
    pub y: u32,
    pub width: u32,
    pub height: u32,
}

/// Where a cached glyph lives: its page and its pixel rectangle there.
#[derive(Debug, Default, Clone, Copy, PartialEq, Eq, Structural)]
pub struct TextRendererGlyph {
    pub page: usize,
    pub rectangle: GlyphRectangle,
}

/// A rasterized glyph: a single-channel coverage bitmap.
#[derive(Debug, Default, Clone)]
pub struct GlyphBitmap {
    pub width: usize,
    pub height: usize,
    pub coverage: Vec<u8>,
}

/// The font backend: rasterizes a glyph key into a coverage bitmap.
/// The atlas asks it only for keys that are not cached yet.
pub trait FontRasterizer {
    fn rasterize(&mut self, key: GlyphKey) -> GlyphBitmap;
}

/// One glyph occurrence of a layout pass: its cache key, whether it has
/// visible ink (whitespace does not), and the caller's payload that
/// rides along to rendering (position, color and the like).
#[derive(Debug, Clone, Copy)]
pub struct GlyphRenderable<UD: Copy> {
    pub key: GlyphKey,
    pub visible: bool,
    pub data: UD,
}

/// The atlas taken apart: the cache, the atlas dimensions, the pixel
/// buffer and the pending renderables.
pub struct TextRendererUnpacked<UD: Copy> {
    pub glyphs: Vec<(GlyphKey, TextRendererGlyph)>,
    pub atlas_size: [usize; 3],
    pub image: Vec<u8>,
    pub renderables: Vec<GlyphRenderable<UD>>,
}

/// The record of the first cache entry with the given key.
pub open spec fn spec_glyph_lookup(
    cache: Seq<(GlyphKey, TextRendererGlyph)>,
    key: GlyphKey,
) -> Option<TextRendererGlyph>
    decreases cache.len(),
{
    if cache.len() == 0 {
        None
    } else if cache[0].0 == key {
        Some(cache[0].1)
    } else {
        spec_glyph_lookup(cache.drop_first(), key)
    }
}

/// `spec_glyph_lookup` finds exactly the first matching entry.
proof fn lemma_glyph_lookup_first(cache: Seq<(GlyphKey, TextRendererGlyph)>, key: GlyphKey, i: int)
    requires
        0 <= i < cache.len(),
        cache[i].0 == key,
        forall|j: int| 0 <= j < i ==> (#[trigger] cache[j]).0 != key,
    ensures
        spec_glyph_lookup(cache, key) == Some(cache[i].1),
    decreases i,
{
    if i > 0 {
        lemma_glyph_lookup_first(cache.drop_first(), key, i - 1);
    }
}

/// `spec_glyph_lookup` finds nothing when no entry matches.
proof fn lemma_glyph_lookup_absent(cache: Seq<(GlyphKey, TextRendererGlyph)>, key: GlyphKey)
    requires
        forall|j: int| 0 <= j < cache.len() ==> (#[trigger] cache[j]).0 != key,
    ensures
        spec_glyph_lookup(cache, key) is None,
    decreases cache.len(),
{
    if cache.len() > 0 {
        lemma_glyph_lookup_absent(cache.drop_first(), key);
    }
}

/// A cache lookup in a longer cache that extends a shorter one agrees
/// with the shorter one wherever the shorter one found something.
proof fn lemma_glyph_lookup_extend(
    cache: Seq<(GlyphKey, TextRendererGlyph)>,
    extended: Seq<(GlyphKey, TextRendererGlyph)>,
    key: GlyphKey,
)
    requires
        cache.len() <= extended.len(),
        extended.take(cache.len() as int) == cache,
        spec_glyph_lookup(cache, key) is Some,
    ensures
        spec_glyph_lookup(extended, key) == spec_glyph_lookup(cache, key),
    decreases cache.len(),
{
    assert(extended.len() > 0);
    assert(extended[0] == cache[0]);
    if cache[0].0 != key {
        assert(extended.drop_first().take(cache.drop_first().len() as int) =~= cache.drop_first());
        lemma_glyph_lookup_extend(cache.drop_first(), extended.drop_first(), key);
    }
}

/// The multi-page glyph atlas. Pages are fixed-size bins allocated
/// lazily and never removed; the pixel buffer always spans
/// `width * height * pages` bytes in page-major order; the cache only
/// grows until an explicit [`Self::clear`].
pub struct TextRenderer<UD: Copy> {
    pub renderables_resize: usize,
    used_glyphs: Vec<(GlyphKey, TextRendererGlyph)>,
    width: usize,
    height: usize,
    image: Vec<u8>,
    atlases: Vec<AtlasAllocator>,
    ready_to_render: Vec<GlyphRenderable<UD>>,
}

impl<UD: Copy> TextRenderer<UD> {
    /// The glyph cache, in insertion order.
    pub closed spec fn spec_cache(&self) -> Seq<(GlyphKey, TextRendererGlyph)> {
        self.used_glyphs@
    }

    /// The page width in pixels.
    pub closed spec fn spec_width(&self) -> int {
        self.width as int
    }

    /// The page height in pixels.
    pub closed spec fn spec_height(&self) -> int {
        self.height as int
    }

    /// How many pages have been allocated.
    pub closed spec fn spec_pages(&self) -> int {
        self.atlases@.len() as int
    }

    /// The single-channel pixel buffer, page-major.
    pub closed spec fn spec_image(&self) -> Seq<u8> {
        self.image@
    }

    /// The queued ready-to-render entries.
    pub closed spec fn spec_queue(&self) -> Seq<GlyphRenderable<UD>> {
        self.ready_to_render@
    }

    /// The growth chunk of the renderables queue.
    pub closed spec fn spec_renderables_resize(&self) -> int {
        self.renderables_resize as int
    }

    /// A cached record points into an existing page and lies within the
    /// page bounds.
    pub open spec fn spec_record_wf(&self, record: TextRendererGlyph) -> bool {
        &&& record.page < self.spec_pages()
        &&& record.rectangle.x + record.rectangle.width <= self.spec_width()
        &&& record.rectangle.y + record.rectangle.height <= self.spec_height()
    }

    /// The atlas invariant: valid page dimensions, a pixel buffer of
    /// exactly one page's worth of bytes per page, allocators matching
    /// the page size, unique cache keys, and every cached record in
    /// bounds.
    pub closed spec fn wf(&self) -> bool {
        &&& 1 <= self.width <= 0xffff
        &&& 1 <= self.height <= 0xffff
        &&& self.width * self.height <= 0x7fff_ffff
        &&& self.image@.len() == self.spec_width() * self.spec_height() * self.spec_pages()
        &&& forall|i: int|
            0 <= i < self.atlases@.len() ==> atlas_width(#[trigger] self.atlases@[i])
                == self.spec_width() && atlas_height(self.atlases@[i]) == self.spec_height()
        &&& forall|i: int, j: int|
            0 <= i < j < self.used_glyphs@.len() ==> (#[trigger] self.used_glyphs@[i]).0 != (
            #[trigger] self.used_glyphs@[j]).0
        &&& forall|i: int|
            0 <= i < self.used_glyphs@.len() ==> self.spec_record_wf(
                (#[trigger] self.used_glyphs@[i]).1,
            )
    }

    /// An empty atlas with the given page size.
    pub fn new(width: usize, height: usize) -> (r: Self)
        requires
            1 <= width <= 0xffff,
            1 <= height <= 0xffff,
            width * height <= 0x7fff_ffff,
        ensures
            r.wf(),
            r.spec_width() == width,
            r.spec_height() == height,
            r.spec_pages() == 0,
            r.spec_cache() == Seq::<(GlyphKey, TextRendererGlyph)>::empty(),
            r.spec_image() == Seq::<u8>::empty(),
            r.spec_queue() == Seq::<GlyphRenderable<UD>>::empty(),
            r.spec_renderables_resize() == 1024,
    {
        let r = Self {
            renderables_resize: 1024,
            used_glyphs: Vec::new(),
            width,
            height,
            image: Vec::new(),
            atlases: Vec::new(),
            ready_to_render: Vec::new(),
        };
        proof {
            assert(r.spec_width() * r.spec_height() * 0 == 0) by (nonlinear_arith);
        }
        r
    }

    /// Forgets every cached glyph, page and queued entry; the page size
    /// is kept. The caller owns the timing of this reset: records
    /// handed out before it no longer resolve.
    pub fn clear(&mut self)
        requires
            old(self).wf(),
        ensures
            final(self).wf(),
            final(self).spec_width() == old(self).spec_width(),
            final(self).spec_height() == old(self).spec_height(),
            final(self).spec_pages() == 0,
            final(self).spec_cache() == Seq::<(GlyphKey, TextRendererGlyph)>::empty(),
            final(self).spec_image() == Seq::<u8>::empty(),
            final(self).spec_queue() == Seq::<GlyphRenderable<UD>>::empty(),
            final(self).spec_renderables_resize() == old(self).spec_renderables_resize(),
    {
        self.used_glyphs.clear();
        self.image.clear();
        self.atlases.clear();
        self.ready_to_render.clear();
        proof {
            assert(self.spec_width() * self.spec_height() * 0 == 0) by (nonlinear_arith);
        }
    }

    /// The cached record of `key`, or `None` when it was never packed.
    pub fn glyph(&self, key: &GlyphKey) -> (r: Option<TextRendererGlyph>)
        ensures
            r == spec_glyph_lookup(self.spec_cache(), *key),
    {
        let n = self.used_glyphs.len();
        let mut i: usize = 0;
        while i < n
            invariant
                i <= n,
                n == self.used_glyphs@.len(),
                forall|j: int| 0 <= j < i ==> (#[trigger] self.used_glyphs@[j]).0 != *key,
            decreases n - i,
        {
            let entry = &self.used_glyphs[i];
            if entry.0 == *key {
                proof {
                    lemma_glyph_lookup_first(self.spec_cache(), *key, i as int);
                }
                return Some(entry.1);
            }
            i += 1;
        }
        proof {
            lemma_glyph_lookup_absent(self.spec_cache(), *key);
        }
        None
    }

    /// The atlas dimensions: page width, page height, page count.
    pub fn atlas_size(&self) -> (r: [usize; 3])
        ensures
            r@ == seq![
                self.spec_width() as usize,
                self.spec_height() as usize,
                self.spec_pages() as usize,
            ],
    {
        let r = [self.width, self.height, self.atlases.len()];
        proof {
            assert(r@ =~= seq![
                self.spec_width() as usize,
                self.spec_height() as usize,
                self.spec_pages() as usize,
            ]);
        }
        r
    }

    /// The raw single-channel pixel buffer, page-major: the byte for
    /// pixel `(x, y)` of page `p` sits at `p * width * height + y *
    /// width + x`.
    pub fn image(&self) -> (r: &[u8])
        ensures
            r@ == self.spec_image(),
    {
        self.image.as_slice()
    }

    /// Takes the atlas apart into its pixel buffer and dimensions.
    pub fn into_image(self) -> (r: (Vec<u8>, [usize; 3]))
        ensures
            r.0@ == self.spec_image(),
            r.1@ == seq![
                self.spec_width() as usize,
                self.spec_height() as usize,
                self.spec_pages() as usize,
            ],
    {
        let size = self.atlas_size();
        (self.image, size)
    }

    /// Takes the atlas apart into all of its parts.
    pub fn into_inner(self) -> (r: TextRendererUnpacked<UD>)
        ensures
            r.glyphs@ == self.spec_cache(),
            r.atlas_size@ == seq![
                self.spec_width() as usize,
                self.spec_height() as usize,
                self.spec_pages() as usize,
            ],
            r.image@ == self.spec_image(),
            r.renderables@ == self.spec_queue(),
    {
        let size = self.atlas_size();
        TextRendererUnpacked {
            glyphs: self.used_glyphs,
            atlas_size: size,
            image: self.image,
            renderables: self.ready_to_render,
        }
    }
}

/// Whether page-major pixel index `p` (with page size `w` by `h`)
/// falls inside the rectangle of width `bw` and height `bh` at
/// `(x, y)` on page `page`.
pub open spec fn spec_in_rect(
    p: int,
    w: int,
    h: int,
    page: int,
    x: int,
    y: int,
    bw: int,
    bh: int,
) -> bool {
    &&& p / (w * h) == page
    &&& y <= (p % (w * h)) / w < y + bh
    &&& x <= (p % (w * h)) % w < x + bw
}

/// The coverage-byte position that page-major pixel index `p` maps to
/// inside a rectangle of width `bw` at `(x, y)`.
pub open spec fn spec_rect_offset(p: int, w: int, h: int, x: int, y: int, bw: int) -> int {
    ((p % (w * h)) / w - y) * bw + ((p % (w * h)) % w - x)
}

/// The lookup result names exactly what the cache holds.
proof fn lemma_glyph_lookup_covers(cache: Seq<(GlyphKey, TextRendererGlyph)>, key: GlyphKey)
    ensures
        match spec_glyph_lookup(cache, key) {
            Some(record) => exists|i: int|
                0 <= i < cache.len() && (#[trigger] cache[i]).0 == key && cache[i].1 == record,
            None => forall|i: int| 0 <= i < cache.len() ==> (#[trigger] cache[i]).0 != key,
        },
    decreases cache.len(),
{
    if cache.len() > 0 && cache[0].0 != key {
        lemma_glyph_lookup_covers(cache.drop_first(), key);
        match spec_glyph_lookup(cache.drop_first(), key) {
            Some(record) => {
                let i = choose|i: int|
                    0 <= i < cache.drop_first().len() && (#[trigger] cache.drop_first()[i]).0
                        == key && cache.drop_first()[i].1 == record;
                assert(cache[i + 1] == cache.drop_first()[i]);
            },
            None => {
                assert forall|i: int| 0 <= i < cache.len() implies (#[trigger] cache[i]).0
                    != key by {
                    if i > 0 {
                        assert(cache.drop_first()[i - 1] == cache[i]);
                    }
                }
            },
        }
    }
}

impl<UD: Copy> TextRenderer<UD> {
    /// Packs one rasterized glyph: allocates a rectangle (with a
    /// one-pixel margin against bleeding) in the first page with room,
    /// creating a new page when none has any, copies the coverage bytes
    /// into the pixel buffer page-major, and caches the record.
    ///
    /// Returns `false` and changes nothing when the key is already
    /// cached, when the bitmap (plus margin) cannot fit a page at all,
    /// or when no rectangle could be allocated; one oversized glyph
    /// deliberately fails soft rather than aborting a text pass.
    /// Conversely, a new key whose bitmap (plus margin) fits the page
    /// is guaranteed to be packed, as long as the page height and the
    /// bitmap height leave room for the packer's bookkeeping (at most
    /// `0xfffe` and `0xfff6` respectively) and the pixel buffer can
    /// still grow by a page.
    pub fn pack_glyph(&mut self, key: GlyphKey, bitmap: &GlyphBitmap) -> (r: bool)
        requires
            old(self).wf(),
            bitmap.coverage@.len() == bitmap.width * bitmap.height,
        ensures
            final(self).wf(),
            final(self).spec_width() == old(self).spec_width(),
            final(self).spec_height() == old(self).spec_height(),
            final(self).spec_queue() == old(self).spec_queue(),
            final(self).spec_renderables_resize() == old(self).spec_renderables_resize(),
            old(self).spec_pages() <= final(self).spec_pages() <= old(self).spec_pages() + 1,
            spec_glyph_lookup(old(self).spec_cache(), key) is Some ==> !r,
            bitmap.width + 1 > old(self).spec_width() ==> !r,
            bitmap.height + 1 > old(self).spec_height() ==> !r,
            bitmap.height + 1 > 0xfff7 ==> !r,
            !r ==> final(self).spec_cache() == old(self).spec_cache() && final(self).spec_image()
                == old(self).spec_image() && final(self).spec_pages() == old(self).spec_pages(),
            spec_glyph_lookup(old(self).spec_cache(), key) is None && bitmap.width + 1 <= old(self).spec_width() && bitmap.height + 1 <= old(self).spec_height() && bitmap.height + 1
                <= 0xfff7 && old(self).spec_height() <= 0xfffe && old(self).spec_pages() < (
            usize::MAX as int) / (old(self).spec_width() * old(self).spec_height()) ==> r,
            r && final(self).spec_pages() == old(self).spec_pages() + 1 ==> final(self).spec_cache().last().1.page == old(self).spec_pages(),
            r ==> final(self).spec_cache().len() == old(self).spec_cache().len() + 1 && final(self).spec_cache().take(old(self).spec_cache().len() as int) == old(self).spec_cache()
                && final(self).spec_cache().last().0 == key && final(self).spec_cache().last().1.rectangle.width == bitmap.width && final(self).spec_cache().last().1.rectangle.height == bitmap.height && final(self).spec_record_wf(final(self).spec_cache().last().1),
            r ==> forall|p: int|
                0 <= p < final(self).spec_image().len() ==> final(self).spec_image()[p] == (
                if spec_in_rect(
                    p,
                    old(self).spec_width(),
                    old(self).spec_height(),
                    final(self).spec_cache().last().1.page as int,
                    final(self).spec_cache().last().1.rectangle.x as int,
                    final(self).spec_cache().last().1.rectangle.y as int,
                    bitmap.width as int,
                    bitmap.height as int,
                ) {
                    bitmap.coverage@[spec_rect_offset(
                        p,
                        old(self).spec_width(),
                        old(self).spec_height(),
                        final(self).spec_cache().last().1.rectangle.x as int,
                        final(self).spec_cache().last().1.rectangle.y as int,
                        bitmap.width as int,
                    )]
                } else if p < old(self).spec_image().len() {
                    old(self).spec_image()[p]
                } else {
                    0u8
                }),
    {
        proof {
            lemma_glyph_lookup_covers(self.spec_cache(), key);
        }
        if self.glyph(&key).is_some() {
            return false;
        }
        if !(bitmap.width < self.width && bitmap.height < self.height && bitmap.height
            < 0xfff7) {
            return false;
        }
        let alloc_w = (bitmap.width + 1) as u32;
        let alloc_h = (bitmap.height + 1) as u32;
        let page_bytes = self.width * self.height;
        let mut page: usize = 0;
        let mut origin: Option<(u32, u32)> = None;
        let page_count = self.atlases.len();
        let mut i: usize = 0;
        while i < page_count
            invariant
                i <= page_count,
                page_count == old(self).spec_pages(),
                old(self).wf(),
                self.spec_width() == old(self).spec_width(),
                self.spec_height() == old(self).spec_height(),
                self.spec_cache() == old(self).spec_cache(),
                self.spec_image() == old(self).spec_image(),
                self.spec_queue() == old(self).spec_queue(),
                self.spec_renderables_resize() == old(self).spec_renderables_resize(),
                self.wf(),
                self.spec_pages() == old(self).spec_pages(),
                alloc_w == bitmap.width + 1,
                alloc_h == bitmap.height + 1,
                alloc_w <= self.spec_width(),
                alloc_h <= self.spec_height(),
                alloc_h <= 0xfff7,
                origin matches Some(o) ==> page < page_count && o.0 + alloc_w
                    <= self.spec_width() && o.1 + alloc_h <= self.spec_height(),
            decreases page_count - i,
        {
            if origin.is_none() {
                let slot = &mut self.atlases[i];
                let attempt = atlas_allocator_allocate(slot, alloc_w, alloc_h);
                proof {
                    assert forall|k: int| 0 <= k < self.atlases@.len() implies atlas_width(
                        #[trigger] self.atlases@[k],
                    ) == self.spec_width() && atlas_height(self.atlases@[k])
                        == self.spec_height() by {}
                }
                if attempt.is_some() {
                    origin = attempt;
                    page = i;
                }
            }
            i += 1;
        }
        proof {
            let ghost wd = old(self).spec_width();
            let ghost ht = old(self).spec_height();
            assert(page_bytes >= 1) by (nonlinear_arith)
                requires
                    page_bytes == wd * ht,
                    wd >= 1,
                    ht >= 1,
            ;
        }
        let mut grew = false;
        if origin.is_none() {
            if self.atlases.len() >= usize::MAX / page_bytes {
                return false;
            }
            let mut fresh = atlas_allocator_new(self.width as u32, self.height as u32);
            match atlas_allocator_allocate(&mut fresh, alloc_w, alloc_h) {
                Some(o) => {
                    page = self.atlases.len();
                    self.atlases.push(fresh);
                    proof {
                        assert((self.spec_pages()) * page_bytes <= ((usize::MAX as int) / (page_bytes as int))
                            * page_bytes) by (nonlinear_arith)
                            requires
                                page_bytes > 0,
                                0 <= self.spec_pages() <= (usize::MAX as int) / (page_bytes as int),
                        ;
                        assert(((usize::MAX as int) / (page_bytes as int)) * page_bytes <= usize::MAX) by (
                        nonlinear_arith)
                            requires
                                page_bytes > 0,
                        ;
                        let ghost wd = old(self).spec_width();
                        let ghost ht = old(self).spec_height();
                        let ghost pg = old(self).spec_pages();
                        assert(wd * ht * (pg + 1) == wd * ht * pg + page_bytes) by (
                        nonlinear_arith)
                            requires
                                page_bytes == wd * ht,
                        ;
                    }
                    let mut added: usize = 0;
                    while added < page_bytes
                        invariant
                            added <= page_bytes,
                            self.spec_width() == old(self).spec_width(),
                            self.spec_height() == old(self).spec_height(),
                            self.spec_cache() == old(self).spec_cache(),
                            self.spec_queue() == old(self).spec_queue(),
                            self.spec_renderables_resize() == old(self).spec_renderables_resize(),
                            self.spec_pages() == old(self).spec_pages() + 1,
                            page == old(self).spec_pages(),
                            forall|k: int|
                                0 <= k < self.atlases@.len() ==> atlas_width(
                                    #[trigger] self.atlases@[k],
                                ) == self.spec_width() && atlas_height(self.atlases@[k])
                                    == self.spec_height(),
                            forall|i2: int, j2: int|
                                0 <= i2 < j2 < self.used_glyphs@.len() ==> (
                                #[trigger] self.used_glyphs@[i2]).0 != (
                                #[trigger] self.used_glyphs@[j2]).0,
                            forall|i2: int|
                                0 <= i2 < self.used_glyphs@.len() ==> old(self).spec_record_wf(
                                    (#[trigger] self.used_glyphs@[i2]).1,
                                ),
                            self.image@.len() == old(self).spec_image().len() + added,
                            self.image@.take(old(self).spec_image().len() as int) == old(self).spec_image(),
                            forall|p: int|
                                old(self).spec_image().len() <= p < self.image@.len()
                                    ==> self.image@[p] == 0u8,
                        decreases page_bytes - added,
                    {
                        self.image.push(0);
                        proof {
                            assert(self.image@.take(old(self).spec_image().len() as int) =~= old(self).spec_image());
                        }
                        added += 1;
                    }
                    origin = Some(o);
                    grew = true;
                },
                None => {
                    return false;
                },
            }
        }
        let (ox, oy) = match origin {
            Some(o) => o,
            None => {
                return false;
            },
        };
        let image_len = self.image.len();
        let ghost base = self.spec_image();
        let ghost pages_now = self.spec_pages();
        let ghost cache_now = self.spec_cache();
        let ghost w = old(self).spec_width();
        let ghost h = old(self).spec_height();
        let bw = bitmap.width;
        let bh = bitmap.height;
        let total = bitmap.coverage.len();
        let mut d: usize = 0;
        while d < total
            invariant
                d <= total,
                total == bitmap.coverage@.len(),
                total == bw * bh,
                bw == bitmap.width,
                bh == bitmap.height,
                w == old(self).spec_width(),
                h == old(self).spec_height(),
                self.spec_width() == w,
                self.spec_height() == h,
                1 <= w <= 0xffff,
                1 <= h <= 0xffff,
                w * h <= 0x7fff_ffff,
                page_bytes == w * h,
                ox + bw + 1 <= w,
                oy + bh + 1 <= h,
                page < self.spec_pages(),
                self.spec_pages() == pages_now,
                old(self).spec_pages() <= pages_now <= old(self).spec_pages() + 1,
                self.spec_cache() == cache_now,
                cache_now == old(self).spec_cache(),
                self.spec_queue() == old(self).spec_queue(),
                self.spec_renderables_resize() == old(self).spec_renderables_resize(),
                forall|k: int|
                    0 <= k < self.atlases@.len() ==> atlas_width(#[trigger] self.atlases@[k]) == w
                        && atlas_height(self.atlases@[k]) == h,
                self.image@.len() == base.len(),
                image_len == base.len(),
                base.len() == w * h * self.spec_pages(),
                forall|p: int|
                    0 <= p < base.len() ==> self.image@[p] == (
                    if spec_in_rect(p, w, h, page as int, ox as int, oy as int, bw as int, bh as int)
                        && spec_rect_offset(p, w, h, ox as int, oy as int, bw as int) < d {
                        bitmap.coverage@[spec_rect_offset(p, w, h, ox as int, oy as int, bw as int)]
                    } else {
                        base[p]
                    }),
            decreases total - d,
        {
            proof {
                assert(bw > 0 && d / bw < bh) by (nonlinear_arith)
                    requires
                        0 <= d < total,
                        total == bw * bh,
                        0 <= bw,
                        0 <= bh,
                ;
            }
            let px = ox as usize + d % bw;
            let py = oy as usize + d / bw;
            proof {
                vstd::arithmetic::div_mod::lemma_mod_bound(d as int, bw as int);
                assert(py * w + px < w * h) by (nonlinear_arith)
                    requires
                        0 <= px < w,
                        0 <= py < h,
                ;
                assert((page as int) * (w * h) + (py * w + px) < self.spec_pages() * (w * h)
                    <= base.len()) by (nonlinear_arith)
                    requires
                        0 <= page as int,
                        page as int + 1 <= self.spec_pages(),
                        0 <= py * w + px < w * h,
                        base.len() == w * h * self.spec_pages(),
                ;
            }
            let in_page = py * self.width + px;
            proof {
                assert((page as int) * (page_bytes as int) + in_page < base.len());
            }
            let idx = page * page_bytes + in_page;
            proof {
                assert(idx == (page as int) * (w * h) + (py * w + px));
            }
            self.image[idx] = bitmap.coverage[d];
            proof {
                vstd::arithmetic::div_mod::lemma_fundamental_div_mod_converse(
                    idx as int,
                    w * h,
                    page as int,
                    in_page as int,
                );
                vstd::arithmetic::div_mod::lemma_fundamental_div_mod_converse(
                    in_page as int,
                    w,
                    py as int,
                    px as int,
                );
                vstd::arithmetic::div_mod::lemma_fundamental_div_mod(d as int, bw as int);
                assert(spec_rect_offset(idx as int, w, h, ox as int, oy as int, bw as int) == (py
                    - oy) * bw + (px - ox));
                assert((py - oy) * bw + (px - ox) == ((d as int) / (bw as int)) * bw + (d as int) % (
                bw as int)) by (nonlinear_arith)
                    requires
                        py == oy + (d as int) / (bw as int),
                        px == ox + (d as int) % (bw as int),
                ;
                assert(spec_rect_offset(idx as int, w, h, ox as int, oy as int, bw as int) == d);
                assert forall|p: int| 0 <= p < base.len() implies self.image@[p] == (
                if spec_in_rect(p, w, h, page as int, ox as int, oy as int, bw as int, bh as int)
                    && spec_rect_offset(p, w, h, ox as int, oy as int, bw as int) < d + 1 {
                    bitmap.coverage@[spec_rect_offset(p, w, h, ox as int, oy as int, bw as int)]
                } else {
                    base[p]
                }) by {
                    if p != idx as int && spec_in_rect(
                        p,
                        w,
                        h,
                        page as int,
                        ox as int,
                        oy as int,
                        bw as int,
                        bh as int,
                    ) && spec_rect_offset(p, w, h, ox as int, oy as int, bw as int) == d {
                        let off = p % (w * h);
                        vstd::arithmetic::div_mod::lemma_fundamental_div_mod(p, w * h);
                        vstd::arithmetic::div_mod::lemma_fundamental_div_mod(off, w);
                        vstd::arithmetic::div_mod::lemma_mod_bound(p, w * h);
                        vstd::arithmetic::div_mod::lemma_mod_bound(off, w);
                        assert((off / w - oy) * (bw as int) + (off % w - ox) == d);
                        assert(off / w == py && off % w == px) by (nonlinear_arith)
                            requires
                                (off / w - oy) * (bw as int) + (off % w - ox) == d,
                                d == ((d as int) / (bw as int)) * (bw as int) + (d as int) % (
                                bw as int),
                                py == oy + (d as int) / (bw as int),
                                px == ox + (d as int) % (bw as int),
                                0 <= off % w - ox < bw,
                                0 <= (d as int) % (bw as int) < bw,
                                oy <= off / w,
                                0 < bw,
                        ;
                        assert(p == (w * h) * (page as int) + off);
                        assert(idx == (w * h) * (page as int) + off) by (nonlinear_arith)
                            requires
                                idx == (page as int) * (w * h) + (py * w + px),
                                off == w * (off / w) + off % w,
                                off / w == py,
                                off % w == px,
                        ;
                        assert(false);
                    }
                }
            }
            d += 1;
        }
        let record = TextRendererGlyph {
            page,
            rectangle: GlyphRectangle {
                x: ox,
                y: oy,
                width: bw as u32,
                height: bh as u32,
            },
        };
        self.used_glyphs.push((key, record));
        proof {
            assert(self.spec_cache().take(old(self).spec_cache().len() as int) =~= old(self).spec_cache());
            let ghost pg = page as int;
            let ghost oxi = ox as int;
            let ghost oyi = oy as int;
            let ghost bwi = bw as int;
            let ghost bhi = bh as int;
            assert forall|p: int| 0 <= p < self.spec_image().len() implies self.spec_image()[p]
                == (if spec_in_rect(p, w, h, pg, oxi, oyi, bwi, bhi) {
                bitmap.coverage@[spec_rect_offset(p, w, h, oxi, oyi, bwi)]
            } else if p < old(self).spec_image().len() {
                old(self).spec_image()[p]
            } else {
                0u8
            }) by {
                if spec_in_rect(p, w, h, pg, oxi, oyi, bwi, bhi) {
                    vstd::arithmetic::div_mod::lemma_mod_bound(p, w * h);
                    let off = p % (w * h);
                    let dy = off / w - oyi;
                    let dx = off % w - oxi;
                    assert(0 <= dy < bhi && 0 <= dx < bwi);
                    assert(0 <= dy * bwi + dx < bwi * bhi) by (nonlinear_arith)
                        requires
                            0 <= dy < bhi,
                            0 <= dx < bwi,
                    ;
                    assert(spec_rect_offset(p, w, h, oxi, oyi, bwi) < total);
                } else {
                    if p < base.len() {
                        assert(self.spec_image()[p] == base[p]);
                    }
                    if grew {
                        if p < old(self).spec_image().len() {
                            assert(base.take(old(self).spec_image().len() as int)[p] == base[p]);
                        }
                    }
                }
            }
        }
        true
    }
}

/// Whether `key` belongs to some visible glyph of `glyphs`: where every
/// newly cached key of one ingest pass comes from.
pub open spec fn spec_key_among<UD: Copy>(glyphs: Seq<GlyphRenderable<UD>>, key: GlyphKey) -> bool {
    exists|i: int|
        0 <= i < glyphs.len() && (#[trigger] glyphs[i]).visible && glyphs[i].key == key
}

/// The visible entries among the first `k` glyphs, in order: what one
/// layout pass adds to the render queue.
pub open spec fn spec_visible_queue<UD: Copy>(glyphs: Seq<GlyphRenderable<UD>>, k: int) -> Seq<
    GlyphRenderable<UD>,
>
    decreases k,
{
    if k <= 0 {
        Seq::empty()
    } else {
        let rest = spec_visible_queue(glyphs, k - 1);
        if glyphs[k - 1].visible {
            rest.push(glyphs[k - 1])
        } else {
            rest
        }
    }
}

/// The renderable/record pairs that draining the first `k` queue
/// entries yields: entries whose key resolves in the cache, paired with
/// their records; entries whose key does not resolve are dropped.
pub open spec fn spec_consumed<UD: Copy>(
    cache: Seq<(GlyphKey, TextRendererGlyph)>,
    queue: Seq<GlyphRenderable<UD>>,
    k: int,
) -> Seq<(GlyphRenderable<UD>, TextRendererGlyph)>
    decreases k,
{
    if k <= 0 {
        Seq::empty()
    } else {
        let rest = spec_consumed(cache, queue, k - 1);
        match spec_glyph_lookup(cache, queue[k - 1].key) {
            Some(record) => rest.push((queue[k - 1], record)),
            None => rest,
        }
    }
}

impl<UD: Copy> TextRenderer<UD> {
    /// Takes one layout pass's glyphs in: every visible glyph is queued
    /// for rendering, and every glyph whose key is not cached yet is
    /// rasterized through the backend — visible ones are then packed
    /// into the atlas. Keys already cached are neither rasterized nor
    /// packed again, and their records are untouched.
    ///
    /// A bitmap whose dimensions do not fit a page, whose reported size
    /// disagrees with its coverage data, or for which no rectangle
    /// could be allocated contributes no cache entry: a soft failure.
    pub fn ingest<R: FontRasterizer>(
        &mut self,
        rasterizer: &mut R,
        glyphs: &[GlyphRenderable<UD>],
    )
        requires
            old(self).wf(),
        ensures
            final(self).wf(),
            final(self).spec_width() == old(self).spec_width(),
            final(self).spec_height() == old(self).spec_height(),
            final(self).spec_renderables_resize() == old(self).spec_renderables_resize(),
            final(self).spec_queue() == old(self).spec_queue() + spec_visible_queue(
                glyphs@,
                glyphs@.len() as int,
            ),
            final(self).spec_pages() >= old(self).spec_pages(),
            final(self).spec_cache().len() >= old(self).spec_cache().len(),
            final(self).spec_cache().take(old(self).spec_cache().len() as int) == old(self).spec_cache(),
            forall|k: GlyphKey|
                spec_glyph_lookup(old(self).spec_cache(), k) is Some ==> spec_glyph_lookup(
                    final(self).spec_cache(),
                    k,
                ) == spec_glyph_lookup(old(self).spec_cache(), k),
            forall|j: int|
                old(self).spec_cache().len() <= j < final(self).spec_cache().len()
                    ==> spec_key_among(glyphs@, (#[trigger] final(self).spec_cache()[j]).0),
    {
        let n = glyphs.len();
        let mut i: usize = 0;
        while i < n
            invariant
                i <= n,
                n == glyphs@.len(),
                self.wf(),
                self.spec_width() == old(self).spec_width(),
                self.spec_height() == old(self).spec_height(),
                self.spec_renderables_resize() == old(self).spec_renderables_resize(),
                self.spec_queue() == old(self).spec_queue() + spec_visible_queue(
                    glyphs@,
                    i as int,
                ),
                self.spec_pages() >= old(self).spec_pages(),
                self.spec_cache().len() >= old(self).spec_cache().len(),
                self.spec_cache().take(old(self).spec_cache().len() as int) == old(self).spec_cache(),
                forall|k: GlyphKey|
                    spec_glyph_lookup(old(self).spec_cache(), k) is Some ==> spec_glyph_lookup(
                        self.spec_cache(),
                        k,
                    ) == spec_glyph_lookup(old(self).spec_cache(), k),
                forall|j: int|
                    old(self).spec_cache().len() <= j < self.spec_cache().len()
                        ==> spec_key_among(glyphs@, (#[trigger] self.spec_cache()[j]).0),
            decreases n - i,
        {
            let ghost cache_at_start = self.spec_cache();
            let ghost processed = i as int;
            let g = glyphs[i];
            if g.visible {
                if self.ready_to_render.len() == crate::stream::vec_capacity(
                    &self.ready_to_render,
                ) {
                    self.ready_to_render.reserve(self.renderables_resize);
                }
                self.ready_to_render.push(g);
            }
            proof {
                assert(self.spec_queue() =~= old(self).spec_queue() + spec_visible_queue(
                    glyphs@,
                    i + 1,
                ));
            }
            let cached = self.glyph(&g.key).is_some();
            if !cached {
                let bitmap = rasterizer.rasterize(g.key);
                if g.visible && bitmap.width < self.width && bitmap.height < self.height {
                    proof {
                        let ghost bwi = bitmap.width as int;
                        let ghost bhi = bitmap.height as int;
                        assert(bwi * bhi <= 0xfffe * 0xfffe) by (nonlinear_arith)
                            requires
                                0 <= bwi <= 0xfffe,
                                0 <= bhi <= 0xfffe,
                        ;
                    }
                    let expected = bitmap.width * bitmap.height;
                    if bitmap.coverage.len() == expected {
                        let ghost before = self.spec_cache();
                        let packed = self.pack_glyph(g.key, &bitmap);
                        proof {
                            if packed {
                                assert(self.spec_cache().take(old(self).spec_cache().len() as int)
                                    =~= before.take(old(self).spec_cache().len() as int));
                                assert forall|k: GlyphKey|
                                    spec_glyph_lookup(old(self).spec_cache(), k)
                                        is Some implies spec_glyph_lookup(self.spec_cache(), k)
                                    == spec_glyph_lookup(old(self).spec_cache(), k) by {
                                    lemma_glyph_lookup_extend(before, self.spec_cache(), k);
                                }
                            }
                        }
                    }
                }
            }
            i += 1;
            proof {
                assert forall|j: int|
                    old(self).spec_cache().len() <= j < self.spec_cache().len() implies
                    spec_key_among(glyphs@, (#[trigger] self.spec_cache()[j]).0) by {
                    if j < cache_at_start.len() {
                        assert(self.spec_cache().take(cache_at_start.len() as int)[j]
                            == self.spec_cache()[j]);
                        assert(self.spec_cache()[j] == cache_at_start[j]);
                    } else {
                        assert(j == self.spec_cache().len() - 1);
                        assert(self.spec_cache()[j].0 == glyphs@[processed].key);
                        assert(glyphs@[processed].visible && glyphs@[processed].key
                            == self.spec_cache()[j].0);
                    }
                }
            }
        }
    }

    /// Drains the render queue: each entry whose key still resolves in
    /// the cache comes back paired with its record, in queue order;
    /// entries whose key no longer resolves (after an external reset)
    /// are silently dropped.
    pub fn consume_renderables(&mut self) -> (r: Vec<(GlyphRenderable<UD>, TextRendererGlyph)>)
        requires
            old(self).wf(),
        ensures
            final(self).wf(),
            final(self).spec_queue() == Seq::<GlyphRenderable<UD>>::empty(),
            final(self).spec_cache() == old(self).spec_cache(),
            final(self).spec_image() == old(self).spec_image(),
            final(self).spec_pages() == old(self).spec_pages(),
            final(self).spec_width() == old(self).spec_width(),
            final(self).spec_height() == old(self).spec_height(),
            final(self).spec_renderables_resize() == old(self).spec_renderables_resize(),
            r@ == spec_consumed(
                old(self).spec_cache(),
                old(self).spec_queue(),
                old(self).spec_queue().len() as int,
            ),
    {
        let mut queue: Vec<GlyphRenderable<UD>> = Vec::new();
        core::mem::swap(&mut queue, &mut self.ready_to_render);
        let mut result: Vec<(GlyphRenderable<UD>, TextRendererGlyph)> = Vec::new();
        let n = queue.len();
        let mut i: usize = 0;
        while i < n
            invariant
                i <= n,
                n == queue@.len(),
                queue@ == old(self).spec_queue(),
                self.spec_cache() == old(self).spec_cache(),
                self.spec_image() == old(self).spec_image(),
                self.spec_pages() == old(self).spec_pages(),
                self.spec_width() == old(self).spec_width(),
                self.spec_height() == old(self).spec_height(),
                self.spec_queue() == Seq::<GlyphRenderable<UD>>::empty(),
                self.spec_renderables_resize() == old(self).spec_renderables_resize(),
                self.wf(),
                result@ == spec_consumed(old(self).spec_cache(), queue@, i as int),
            decreases n - i,
        {
            let g = queue[i];
            match self.glyph(&g.key) {
                Some(record) => {
                    result.push((g, record));
                },
                None => {},
            }
            i += 1;
        }
        result
    }
}

impl<UD: Copy> Default for TextRenderer<UD> {
    /// An empty atlas with 1024 by 1024 pixel pages.
    fn default() -> (r: Self)
        ensures
            r.wf(),
            r.spec_width() == 1024,
            r.spec_height() == 1024,
            r.spec_pages() == 0,
            r.spec_cache() == Seq::<(GlyphKey, TextRendererGlyph)>::empty(),
            r.spec_image() == Seq::<u8>::empty(),
            r.spec_queue() == Seq::<GlyphRenderable<UD>>::empty(),
    {
        Self::new(1024, 1024)
    }
}

} // verus!
