//! The whole frame pipeline on plain values: glyphs are packed into the
//! atlas, their quads appended to the geometry stream through the same
//! quad helper every emitter uses, and the finalized batches diffed
//! into a command list.

use spitfire::renderer::{submit_commands, GlowBatch, GlowBlending, GlowCommand};
use spitfire::stream::VertexStream;
use spitfire::text::{FontRasterizer, GlyphBitmap, GlyphKey, GlyphRenderable, TextRenderer};

struct SquareRasterizer;

impl FontRasterizer for SquareRasterizer {
    fn rasterize(&mut self, key: GlyphKey) -> GlyphBitmap {
        let side = key.size as usize;
        GlyphBitmap {
            width: side,
            height: side,
            coverage: vec![0xFF; side * side],
        }
    }
}

fn text_batch(blending: GlowBlending) -> GlowBatch {
    GlowBatch {
        shader_program: Some(1),
        uniforms: Vec::new(),
        textures: Vec::new(),
        blending: blending.into_gl(),
        scissor: None,
        wireframe: false,
    }
}

#[test]
fn glyph_quads_flow_through_the_stream_into_one_draw() {
    // Lay out two glyphs; the atlas packs and caches them.
    let mut atlas: TextRenderer<u32> = TextRenderer::new(64, 64);
    let glyphs = [
        GlyphRenderable { key: GlyphKey { font: 0, glyph: 1, size: 8 }, visible: true, data: 0 },
        GlyphRenderable { key: GlyphKey { font: 0, glyph: 2, size: 8 }, visible: true, data: 1 },
    ];
    atlas.ingest(&mut SquareRasterizer, &glyphs);

    // Drain the queue into the stream, one quad per resolved glyph.
    let mut stream: VertexStream<[u32; 2], GlowBatch> = VertexStream::default();
    stream.batch_optimized(text_batch(GlowBlending::Alpha));
    for (entry, record) in atlas.consume_renderables() {
        let x = record.rectangle.x;
        let y = record.rectangle.y;
        let _ = entry;
        stream.quad([[x, y], [x + 8, y], [x + 8, y + 8], [x, y + 8]]);
    }
    stream.batch_optimized(text_batch(GlowBlending::Alpha));
    assert_eq!(stream.vertices().len(), 8);
    assert_eq!(stream.triangles().len(), 4);
    // Equal render state merged into a single batch spanning everything.
    assert_eq!(stream.batches().len(), 1);

    // Finalize and diff: one program bind, one blend change, one draw.
    let (_vertices, triangles, batches) = stream.drain();
    assert_eq!(batches[0].1, 0..triangles.len());
    let commands = submit_commands(&batches);
    let draws: Vec<_> = commands
        .iter()
        .filter(|c| matches!(c, GlowCommand::DrawTriangles { .. }))
        .collect();
    assert_eq!(draws.len(), 1);
    assert_eq!(
        *draws[0],
        GlowCommand::DrawTriangles { start: 0, count: triangles.len() }
    );
}
