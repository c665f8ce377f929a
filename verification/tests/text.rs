use spitfire::text::{
    FontRasterizer, GlyphBitmap, GlyphKey, GlyphRenderable, TextRenderer,
};

/// A rasterizer double that draws a solid square of the key's size and
/// counts how often it is asked.
struct CountingRasterizer {
    side: usize,
    calls: usize,
}

impl FontRasterizer for CountingRasterizer {
    fn rasterize(&mut self, _key: GlyphKey) -> GlyphBitmap {
        self.calls += 1;
        GlyphBitmap {
            width: self.side,
            height: self.side,
            coverage: vec![0xAA; self.side * self.side],
        }
    }
}

fn key(glyph: u16) -> GlyphKey {
    GlyphKey { font: 0, glyph, size: 32 }
}

fn visible(glyph: u16) -> GlyphRenderable<u8> {
    GlyphRenderable { key: key(glyph), visible: true, data: 0 }
}

#[test]
fn same_glyph_twice_rasterizes_and_allocates_once() {
    let mut renderer: TextRenderer<u8> = TextRenderer::new(64, 64);
    let mut rasterizer = CountingRasterizer { side: 8, calls: 0 };
    renderer.ingest(&mut rasterizer, &[visible(1)]);
    assert_eq!(rasterizer.calls, 1);
    let first = renderer.glyph(&key(1)).unwrap();
    let pages_after_first = renderer.atlas_size()[2];
    renderer.ingest(&mut rasterizer, &[visible(1)]);
    // No second rasterization, no new page, identical record.
    assert_eq!(rasterizer.calls, 1);
    let second = renderer.glyph(&key(1)).unwrap();
    assert_eq!(first, second);
    assert_eq!(renderer.atlas_size()[2], pages_after_first);
}

#[test]
fn packing_beyond_one_page_grows_the_page_count() {
    // 4 glyphs of 40x40 (plus margin) cannot share one 64x64 page.
    let mut renderer: TextRenderer<u8> = TextRenderer::new(64, 64);
    let mut rasterizer = CountingRasterizer { side: 40, calls: 0 };
    let glyphs: Vec<_> = (1..=4).map(visible).collect();
    renderer.ingest(&mut rasterizer, &glyphs);
    let size = renderer.atlas_size();
    assert!(size[2] >= 2, "expected at least two pages, got {}", size[2]);
    // The cached records span at least two distinct page indices.
    let mut pages: Vec<usize> = (1..=4)
        .filter_map(|g| renderer.glyph(&key(g)))
        .map(|record| record.page)
        .collect();
    pages.sort_unstable();
    pages.dedup();
    assert!(pages.len() >= 2);
    // The pixel buffer always spans width * height * pages bytes.
    assert_eq!(renderer.image().len(), size[0] * size[1] * size[2]);
}

#[test]
fn coverage_bytes_land_page_major_at_the_cached_rectangle() {
    let mut renderer: TextRenderer<u8> = TextRenderer::new(32, 32);
    let bitmap = GlyphBitmap {
        width: 2,
        height: 2,
        coverage: vec![1, 2, 3, 4],
    };
    assert!(renderer.pack_glyph(key(9), &bitmap));
    let record = renderer.glyph(&key(9)).unwrap();
    assert_eq!(record.rectangle.width, 2);
    assert_eq!(record.rectangle.height, 2);
    let [w, h, pages] = renderer.atlas_size();
    assert_eq!(pages, 1);
    let image = renderer.image();
    assert_eq!(image.len(), w * h);
    let x = record.rectangle.x as usize;
    let y = record.rectangle.y as usize;
    assert_eq!(image[record.page * w * h + y * w + x], 1);
    assert_eq!(image[record.page * w * h + y * w + x + 1], 2);
    assert_eq!(image[record.page * w * h + (y + 1) * w + x], 3);
    assert_eq!(image[record.page * w * h + (y + 1) * w + x + 1], 4);
}

#[test]
fn glyphs_on_one_page_do_not_overlap() {
    let mut renderer: TextRenderer<u8> = TextRenderer::new(64, 64);
    let a = GlyphBitmap { width: 10, height: 10, coverage: vec![1; 100] };
    let b = GlyphBitmap { width: 10, height: 10, coverage: vec![2; 100] };
    assert!(renderer.pack_glyph(key(1), &a));
    assert!(renderer.pack_glyph(key(2), &b));
    let ra = renderer.glyph(&key(1)).unwrap();
    let rb = renderer.glyph(&key(2)).unwrap();
    if ra.page == rb.page {
        let horizontal_apart = ra.rectangle.x + ra.rectangle.width <= rb.rectangle.x
            || rb.rectangle.x + rb.rectangle.width <= ra.rectangle.x;
        let vertical_apart = ra.rectangle.y + ra.rectangle.height <= rb.rectangle.y
            || rb.rectangle.y + rb.rectangle.height <= ra.rectangle.y;
        assert!(horizontal_apart || vertical_apart);
    }
    // Both coverage blocks survive in the image: neither write clobbered
    // the other.
    let ones = renderer.image().iter().filter(|&&b| b == 1).count();
    let twos = renderer.image().iter().filter(|&&b| b == 2).count();
    assert_eq!(ones, 100);
    assert_eq!(twos, 100);
}

#[test]
fn oversized_glyph_fails_soft() {
    let mut renderer: TextRenderer<u8> = TextRenderer::new(16, 16);
    let mut rasterizer = CountingRasterizer { side: 16, calls: 0 };
    renderer.ingest(&mut rasterizer, &[visible(1)]);
    // Rasterized (the key was vacant) but never packed: a 16-pixel
    // square plus its margin exceeds the 16-pixel page.
    assert_eq!(rasterizer.calls, 1);
    assert!(renderer.glyph(&key(1)).is_none());
    assert_eq!(renderer.atlas_size()[2], 0);
    // The drain drops the entry whose key never resolved.
    assert!(renderer.consume_renderables().is_empty());
}

#[test]
fn invisible_glyphs_are_rasterized_but_not_packed_or_queued() {
    let mut renderer: TextRenderer<u8> = TextRenderer::new(64, 64);
    let mut rasterizer = CountingRasterizer { side: 4, calls: 0 };
    let blank = GlyphRenderable::<u8> { key: key(2), visible: false, data: 0 };
    renderer.ingest(&mut rasterizer, &[blank]);
    assert_eq!(rasterizer.calls, 1);
    assert!(renderer.glyph(&key(2)).is_none());
    assert!(renderer.consume_renderables().is_empty());
}

#[test]
fn consume_renderables_pairs_entries_with_records_in_order() {
    let mut renderer: TextRenderer<u8> = TextRenderer::new(64, 64);
    let mut rasterizer = CountingRasterizer { side: 4, calls: 0 };
    let a = GlyphRenderable::<u8> { key: key(1), visible: true, data: 10 };
    let b = GlyphRenderable::<u8> { key: key(2), visible: true, data: 20 };
    renderer.ingest(&mut rasterizer, &[a, b]);
    let drained = renderer.consume_renderables();
    assert_eq!(drained.len(), 2);
    assert_eq!(drained[0].0.data, 10);
    assert_eq!(drained[1].0.data, 20);
    assert_eq!(drained[0].1, renderer.glyph(&key(1)).unwrap());
    // The queue is gone afterwards.
    assert!(renderer.consume_renderables().is_empty());
}

#[test]
fn clear_resets_cache_pages_and_image_but_keeps_page_size() {
    let mut renderer: TextRenderer<u8> = TextRenderer::new(64, 64);
    let mut rasterizer = CountingRasterizer { side: 4, calls: 0 };
    renderer.ingest(&mut rasterizer, &[visible(1)]);
    assert_eq!(renderer.atlas_size(), [64, 64, 1]);
    renderer.clear();
    assert_eq!(renderer.atlas_size(), [64, 64, 0]);
    assert!(renderer.image().is_empty());
    assert!(renderer.glyph(&key(1)).is_none());
}

#[test]
fn entries_stale_after_clear_are_dropped_by_the_drain() {
    let mut renderer: TextRenderer<u8> = TextRenderer::new(64, 64);
    let mut rasterizer = CountingRasterizer { side: 4, calls: 0 };
    renderer.ingest(&mut rasterizer, &[visible(1)]);
    // Reset the cache externally while entries are still queued: the
    // queue is cleared too, so nothing resolves and nothing is drawn.
    renderer.clear();
    renderer.ingest(&mut rasterizer, &[]);
    assert!(renderer.consume_renderables().is_empty());
}

#[test]
fn into_image_and_into_inner_expose_the_parts() {
    let mut renderer: TextRenderer<u8> = TextRenderer::new(32, 32);
    let mut rasterizer = CountingRasterizer { side: 4, calls: 0 };
    renderer.ingest(&mut rasterizer, &[visible(1)]);
    let unpacked = {
        let mut other: TextRenderer<u8> = TextRenderer::new(32, 32);
        other.ingest(&mut rasterizer, &[visible(1)]);
        other.into_inner()
    };
    assert_eq!(unpacked.glyphs.len(), 1);
    assert_eq!(unpacked.atlas_size, [32, 32, 1]);
    assert_eq!(unpacked.renderables.len(), 1);
    let (image, size) = renderer.into_image();
    assert_eq!(size, [32, 32, 1]);
    assert_eq!(image.len(), 32 * 32);
}

#[test]
fn mismatched_coverage_length_is_rejected() {
    let mut renderer: TextRenderer<u8> = TextRenderer::new(32, 32);
    struct LyingRasterizer;
    impl FontRasterizer for LyingRasterizer {
        fn rasterize(&mut self, _key: GlyphKey) -> GlyphBitmap {
            GlyphBitmap { width: 4, height: 4, coverage: vec![1, 2, 3] }
        }
    }
    renderer.ingest(&mut LyingRasterizer, &[visible(1)]);
    assert!(renderer.glyph(&key(1)).is_none());
}

#[test]
fn maximal_fitting_bitmap_is_packed() {
    // A bitmap of side page-1 plus its one-pixel margin spans the whole
    // page; packing it is guaranteed, on a fresh page.
    let mut renderer: TextRenderer<u8> = TextRenderer::new(32, 32);
    let bitmap = GlyphBitmap { width: 31, height: 31, coverage: vec![7; 31 * 31] };
    assert!(renderer.pack_glyph(key(1), &bitmap));
    let record = renderer.glyph(&key(1)).unwrap();
    assert_eq!(record.page, 0);
    assert_eq!(renderer.atlas_size(), [32, 32, 1]);
    // The next one cannot share that page; it lands on a new one.
    let second = GlyphBitmap { width: 31, height: 31, coverage: vec![9; 31 * 31] };
    assert!(renderer.pack_glyph(key(2), &second));
    assert_eq!(renderer.glyph(&key(2)).unwrap().page, 1);
    assert_eq!(renderer.atlas_size(), [32, 32, 2]);
}
