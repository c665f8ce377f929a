use spitfire::renderer::{GlowBatch, GlowUniformValue};
use spitfire::stream::{Triangle, VertexStream};

type V = [f32; 2];

fn tri(a: u32, b: u32, c: u32) -> Triangle {
    Triangle { a, b, c }
}

#[test]
fn triangle_offset_shifts_all_indices() {
    let t = Triangle::default().offset(5);
    assert_eq!(t, tri(5, 6, 7));
}

#[test]
fn clear_empties_all_three_buffers() {
    let mut stream: VertexStream<V, u32> = VertexStream::default();
    stream.batch(1);
    stream.quad([[0.0, 0.0], [1.0, 0.0], [1.0, 1.0], [0.0, 1.0]]);
    assert_eq!(stream.vertices().len(), 4);
    assert_eq!(stream.triangles().len(), 2);
    assert_eq!(stream.batches().len(), 1);
    stream.clear();
    assert_eq!(stream.vertices().len(), 0);
    assert_eq!(stream.triangles().len(), 0);
    assert_eq!(stream.batches().len(), 0);
}

#[test]
fn operations_never_shrink_buffers() {
    let mut stream: VertexStream<V, u32> = VertexStream::new(4);
    let mut lengths = Vec::new();
    stream.triangle([[0.0, 0.0], [1.0, 0.0], [0.0, 1.0]]);
    lengths.push((stream.vertices().len(), stream.triangles().len(), stream.batches().len()));
    stream.batch(9);
    lengths.push((stream.vertices().len(), stream.triangles().len(), stream.batches().len()));
    stream.quad([[0.0, 0.0], [1.0, 0.0], [1.0, 1.0], [0.0, 1.0]]);
    lengths.push((stream.vertices().len(), stream.triangles().len(), stream.batches().len()));
    stream.batch_optimized(9);
    lengths.push((stream.vertices().len(), stream.triangles().len(), stream.batches().len()));
    stream.triangle_fan(&[[0.0, 0.0], [1.0, 0.0], [1.0, 1.0], [0.0, 1.0]]);
    lengths.push((stream.vertices().len(), stream.triangles().len(), stream.batches().len()));
    for pair in lengths.windows(2) {
        assert!(pair[0].0 <= pair[1].0);
        assert!(pair[0].1 <= pair[1].1);
        assert!(pair[0].2 <= pair[1].2);
    }
}

#[test]
fn quad_emits_the_two_standard_triangles() {
    let mut stream: VertexStream<V, u32> = VertexStream::default();
    // Pre-fill so the quad starts at a non-zero vertex index.
    stream.triangle([[0.0, 0.0], [1.0, 0.0], [0.0, 1.0]]);
    let n = stream.vertices().len() as u32;
    assert_eq!(n, 3);
    stream.quad([[0.0, 0.0], [1.0, 0.0], [1.0, 1.0], [0.0, 1.0]]);
    let triangles = stream.triangles();
    assert_eq!(triangles.len(), 3);
    assert_eq!(triangles[1], tri(n, n + 1, n + 2));
    assert_eq!(triangles[2], tri(n + 2, n + 3, n));
}

#[test]
fn triangle_fan_of_five_vertices_emits_three_triangles_sharing_first() {
    let mut stream: VertexStream<V, u32> = VertexStream::default();
    stream.triangle_fan(&[[0.0, 0.0], [1.0, 0.0], [1.0, 1.0], [0.0, 1.0], [-1.0, 0.0]]);
    let triangles = stream.triangles();
    assert_eq!(triangles.len(), 3);
    for (i, t) in triangles.iter().enumerate() {
        let i = i as u32;
        assert_eq!(*t, tri(0, i + 1, i + 2));
    }
}

#[test]
fn triangle_fan_with_too_few_vertices_is_silent() {
    let mut stream: VertexStream<V, u32> = VertexStream::default();
    stream.triangle_fan(&[[0.0, 0.0], [1.0, 0.0]]);
    assert_eq!(stream.vertices().len(), 2);
    assert_eq!(stream.triangles().len(), 0);
    stream.triangle_strip(&[[0.0, 0.0]]);
    assert_eq!(stream.triangles().len(), 0);
}

#[test]
fn triangle_strip_alternates_winding() {
    let mut stream: VertexStream<V, u32> = VertexStream::default();
    stream.triangle_strip(&[[0.0, 0.0], [1.0, 0.0], [1.0, 1.0], [0.0, 1.0]]);
    let triangles = stream.triangles();
    assert_eq!(triangles.len(), 2);
    assert_eq!(triangles[0], tri(0, 1, 2));
    assert_eq!(triangles[1], tri(2, 1, 3));
}

#[test]
fn extend_translates_supplied_triangles() {
    let mut stream: VertexStream<V, u32> = VertexStream::default();
    stream.triangle([[0.0, 0.0], [1.0, 0.0], [0.0, 1.0]]);
    stream.extend(
        &[[2.0, 0.0], [3.0, 0.0], [2.0, 1.0]],
        &[tri(0, 1, 2)],
    );
    assert_eq!(stream.triangles()[1], tri(3, 4, 5));
}

#[test]
fn raw_extends_do_not_translate() {
    let mut stream: VertexStream<V, u32> = VertexStream::default();
    stream.extend_vertices(&[[0.0, 0.0], [1.0, 0.0], [0.0, 1.0]]);
    stream.extend_triangles(false, &[tri(0, 1, 2)]);
    assert_eq!(stream.triangles()[0], tri(0, 1, 2));
    stream.extend_triangles(true, &[tri(0, 1, 2)]);
    assert_eq!(stream.triangles()[1], tri(3, 4, 5));
    stream.extend_batches(vec![(7, 0..2)]);
    assert_eq!(stream.batches()[0], (7, 0..2));
}

#[test]
fn batch_optimized_merges_equal_state() {
    let mut stream: VertexStream<V, u32> = VertexStream::default();
    stream.batch_optimized(5);
    stream.triangle([[0.0, 0.0], [1.0, 0.0], [0.0, 1.0]]);
    stream.batch_optimized(5);
    stream.triangle([[0.0, 0.0], [1.0, 0.0], [0.0, 1.0]]);
    stream.batch_optimized(5);
    let batches = stream.batches();
    assert_eq!(batches.len(), 1);
    assert_eq!(batches[0].1, 0..stream.triangles().len());
}

#[test]
fn batch_optimized_with_different_state_opens_one_new_batch() {
    let mut stream: VertexStream<V, u32> = VertexStream::default();
    stream.batch_optimized(5);
    stream.triangle([[0.0, 0.0], [1.0, 0.0], [0.0, 1.0]]);
    stream.batch_optimized(6);
    stream.triangle([[0.0, 0.0], [1.0, 0.0], [0.0, 1.0]]);
    stream.batch_end();
    let batches = stream.batches();
    assert_eq!(batches.len(), 2);
    assert_eq!(batches[0], (5, 0..1));
    assert_eq!(batches[1], (6, 1..2));
}

#[test]
fn extract_round_trip_restores_token_lengths() {
    let mut stream: VertexStream<V, u32> = VertexStream::default();
    stream.batch(1);
    stream.triangle([[0.0, 0.0], [1.0, 0.0], [0.0, 1.0]]);
    let token = stream.token();
    stream.batch(2);
    stream.quad([[5.0, 5.0], [6.0, 5.0], [6.0, 6.0], [5.0, 6.0]]);
    let extracted = stream.extract(token);
    // The source is back at the token's snapshot.
    assert_eq!(stream.vertices().len(), 3);
    assert_eq!(stream.triangles().len(), 1);
    assert_eq!(stream.batches().len(), 1);
    // The extracted stream holds the appended data, re-based to zero.
    assert_eq!(
        extracted.vertices(),
        &[[5.0, 5.0], [6.0, 5.0], [6.0, 6.0], [5.0, 6.0]]
    );
    assert_eq!(extracted.triangles(), &[tri(0, 1, 2), tri(2, 3, 0)]);
    assert_eq!(extracted.batches(), &[(2, 0..0)]);
}

#[test]
fn append_drains_other_and_translates() {
    let mut target: VertexStream<V, u32> = VertexStream::default();
    target.batch(1);
    target.triangle([[0.0, 0.0], [1.0, 0.0], [0.0, 1.0]]);
    target.batch_end();
    let mut other: VertexStream<V, u32> = VertexStream::default();
    other.batch(2);
    other.quad([[5.0, 5.0], [6.0, 5.0], [6.0, 6.0], [5.0, 6.0]]);
    other.batch_end();
    let other_batches: Vec<(u32, std::ops::Range<usize>)> = other.batches().to_vec();
    target.append(&mut other);
    assert_eq!(other.vertices().len(), 0);
    assert_eq!(other.triangles().len(), 0);
    assert_eq!(other.batches().len(), 0);
    assert_eq!(target.vertices().len(), 7);
    assert_eq!(target.triangles()[1], tri(3, 4, 5));
    assert_eq!(target.triangles()[2], tri(5, 6, 3));
    let appended = &target.batches()[1];
    assert_eq!(appended.0, other_batches[0].0);
    assert_eq!(appended.1.start, other_batches[0].1.start + 1);
    assert_eq!(appended.1.end, other_batches[0].1.end + 1);
}

#[test]
fn append_cloned_leaves_other_unchanged() {
    let mut target: VertexStream<V, u32> = VertexStream::default();
    target.triangle([[0.0, 0.0], [1.0, 0.0], [0.0, 1.0]]);
    let mut other: VertexStream<V, u32> = VertexStream::default();
    other.batch(2);
    other.quad([[5.0, 5.0], [6.0, 5.0], [6.0, 6.0], [5.0, 6.0]]);
    other.batch_end();
    target.append_cloned(&other);
    // Other keeps its contents.
    assert_eq!(other.vertices().len(), 4);
    assert_eq!(other.triangles().len(), 2);
    assert_eq!(other.batches(), &[(2, 0..2)]);
    // Destination gained the same data, offset by its prior lengths.
    assert_eq!(target.vertices().len(), 7);
    assert_eq!(target.triangles()[1], tri(3, 4, 5));
    assert_eq!(target.batches(), &[(2, 1..3)]);
}

#[test]
fn drain_finalizes_and_empties() {
    let mut stream: VertexStream<V, u32> = VertexStream::default();
    stream.batch(3);
    stream.triangle([[0.0, 0.0], [1.0, 0.0], [0.0, 1.0]]);
    let (vertices, triangles, batches) = stream.drain();
    assert_eq!(vertices.len(), 3);
    assert_eq!(triangles, vec![tri(0, 1, 2)]);
    assert_eq!(batches, vec![(3, 0..1)]);
    assert_eq!(stream.vertices().len(), 0);
    assert_eq!(stream.triangles().len(), 0);
    assert_eq!(stream.batches().len(), 0);
}

#[test]
fn batch_partition_covers_all_triangles_after_finalize() {
    let mut stream: VertexStream<V, u32> = VertexStream::default();
    stream.batch(1);
    stream.triangle([[0.0, 0.0], [1.0, 0.0], [0.0, 1.0]]);
    stream.batch(2);
    stream.quad([[0.0, 0.0], [1.0, 0.0], [1.0, 1.0], [0.0, 1.0]]);
    stream.batch_end();
    let batches = stream.batches();
    assert_eq!(batches[0].1, 0..1);
    assert_eq!(batches[1].1, 1..3);
    assert_eq!(batches.last().unwrap().1.end, stream.triangles().len());
}

#[test]
fn transformed_applies_to_the_recorded_suffix() {
    let mut stream: VertexStream<V, u32> = VertexStream::default();
    stream.triangle([[1.0, 1.0], [2.0, 1.0], [1.0, 2.0]]);
    let mark = stream.vertices().len();
    stream.triangle([[0.0, 0.0], [1.0, 0.0], [0.0, 1.0]]);
    stream.transformed(mark, |v: V| [v[0] + 10.0, v[1] + 20.0]);
    assert_eq!(stream.vertices()[0], [1.0, 1.0]);
    assert_eq!(stream.vertices()[3], [10.0, 20.0]);
    assert_eq!(stream.vertices()[4], [11.0, 20.0]);
    assert_eq!(stream.vertices()[5], [10.0, 21.0]);
}

#[test]
fn fork_keeps_resize_count_and_render_with_unit_renderer() {
    let mut stream: VertexStream<V, u32> = VertexStream::new(16);
    stream.batch(1);
    stream.triangle([[0.0, 0.0], [1.0, 0.0], [0.0, 1.0]]);
    let fork = stream.fork();
    assert_eq!(fork.vertices().len(), 0);
    let mut unit = ();
    assert_eq!(stream.render(&mut unit), Ok(()));
    // render finalized the open batch.
    assert_eq!(stream.batches()[0].1, 0..1);
}

#[test]
fn batch_optimized_merges_reordered_uniform_maps() {
    let mut first = GlowBatch::default();
    first.shader_program = Some(4);
    first.uniforms.push(("u_a".to_owned(), GlowUniformValue::I1(1)));
    first.uniforms.push(("u_b".to_owned(), GlowUniformValue::I1(2)));
    let mut second = GlowBatch::default();
    second.shader_program = Some(4);
    second.uniforms.push(("u_b".to_owned(), GlowUniformValue::I1(2)));
    second.uniforms.push(("u_a".to_owned(), GlowUniformValue::I1(1)));
    let mut stream: VertexStream<V, GlowBatch> = VertexStream::default();
    stream.batch_optimized(first);
    stream.triangle([[0.0, 0.0], [1.0, 0.0], [0.0, 1.0]]);
    stream.batch_optimized(second);
    assert_eq!(stream.batches().len(), 1);
}
