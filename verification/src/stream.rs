//! The geometry stream: append-only vertex, triangle and batch buffers
//! with run-length batch tracking and offset-translating splice
//! operations.

use vstd::prelude::*;

verus! {

use vstd::std_specs::cmp::PartialEqSpec;

/// Three indices into a vertex buffer.
#[derive(Debug, Clone, Copy, PartialEq, Eq, Structural)]
pub struct Triangle {
    pub a: u32,
    pub b: u32,
    pub c: u32,
}

impl Default for Triangle {
    /// The default triangle refers to the first three vertices in order.
    fn default() -> (r: Self)
        ensures
            r == (Triangle { a: 0, b: 1, c: 2 }),
    {
        Self { a: 0, b: 1, c: 2 }
    }
}

impl Triangle {
    /// Shifts all three indices up by `offset`, so a triangle authored
    /// against a zero-based vertex list can refer into a larger buffer.
    pub fn offset(self, offset: usize) -> (r: Self)
        requires
            self.a + offset <= u32::MAX,
            self.b + offset <= u32::MAX,
            self.c + offset <= u32::MAX,
        ensures
            r.a == self.a + offset,
            r.b == self.b + offset,
            r.c == self.c + offset,
    {
        Self {
            a: self.a + offset as u32,
            b: self.b + offset as u32,
            c: self.c + offset as u32,
        }
    }
}

/// A snapshot of the three buffer lengths, bounding a later
/// [`VertexStream::extract`] to everything appended after it was taken.
#[derive(Debug, Clone, Copy)]
pub struct VertexStreamToken {
    vertices: usize,
    triangles: usize,
    batches: usize,
}

impl VertexStreamToken {
    /// The vertex count recorded in the snapshot.
    pub closed spec fn spec_vertices(&self) -> int {
        self.vertices as int
    }

    /// The triangle count recorded in the snapshot.
    pub closed spec fn spec_triangles(&self) -> int {
        self.triangles as int
    }

    /// The batch count recorded in the snapshot.
    pub closed spec fn spec_batches(&self) -> int {
        self.batches as int
    }
}

/// The accumulating geometry buffer: parallel vertex, triangle and batch
/// lists plus a capacity-growth chunk size.
///
/// Batch ranges are half-open index ranges over the triangle list. When
/// the stream is used through the checked operations, the ranges are
/// sorted, non-overlapping, and after [`Self::batch_end`] they partition
/// the triangle list. The raw `extend_*` operations bypass the
/// index-translation that maintains this; callers of those must supply
/// already-correct data.
pub struct VertexStream<V, B> {
    vertices: Vec<V>,
    triangles: Vec<Triangle>,
    batches: Vec<(B, core::ops::Range<usize>)>,
    resize_count: usize,
}

impl<V, B> VertexStream<V, B> {
    /// The vertex list.
    pub closed spec fn spec_vertices(&self) -> Seq<V> {
        self.vertices@
    }

    /// The triangle list.
    pub closed spec fn spec_triangles(&self) -> Seq<Triangle> {
        self.triangles@
    }

    /// The batch list: render-state values paired with triangle ranges.
    pub closed spec fn spec_batches(&self) -> Seq<(B, core::ops::Range<usize>)> {
        self.batches@
    }

    /// The capacity-growth chunk size chosen at construction.
    pub closed spec fn spec_resize_count(&self) -> int {
        self.resize_count as int
    }

    /// Creates an empty stream whose buffers will grow by `resize_count`
    /// elements at a time.
    pub fn new(resize_count: usize) -> (r: Self)
        ensures
            r.spec_vertices() == Seq::<V>::empty(),
            r.spec_triangles() == Seq::<Triangle>::empty(),
            r.spec_batches() == Seq::<(B, core::ops::Range<usize>)>::empty(),
            r.spec_resize_count() == resize_count,
    {
        Self {
            vertices: Vec::with_capacity(resize_count),
            triangles: Vec::with_capacity(resize_count),
            batches: Vec::with_capacity(resize_count),
            resize_count,
        }
    }

    /// Creates an empty stream with the same growth chunk size.
    pub fn fork(&self) -> (r: Self)
        ensures
            r.spec_vertices() == Seq::<V>::empty(),
            r.spec_triangles() == Seq::<Triangle>::empty(),
            r.spec_batches() == Seq::<(B, core::ops::Range<usize>)>::empty(),
            r.spec_resize_count() == self.spec_resize_count(),
    {
        Self::new(self.resize_count)
    }

    /// Snapshots the current buffer lengths.
    pub fn token(&self) -> (r: VertexStreamToken)
        ensures
            r.spec_vertices() == self.spec_vertices().len(),
            r.spec_triangles() == self.spec_triangles().len(),
            r.spec_batches() == self.spec_batches().len(),
    {
        VertexStreamToken {
            vertices: self.vertices.len(),
            triangles: self.triangles.len(),
            batches: self.batches.len(),
        }
    }

    /// Empties all three buffers; allocated capacity is retained.
    pub fn clear(&mut self)
        ensures
            final(self).spec_vertices() == Seq::<V>::empty(),
            final(self).spec_triangles() == Seq::<Triangle>::empty(),
            final(self).spec_batches() == Seq::<(B, core::ops::Range<usize>)>::empty(),
            final(self).spec_resize_count() == old(self).spec_resize_count(),
    {
        self.vertices.clear();
        self.triangles.clear();
        self.batches.clear();
    }

    /// The appended vertices, in order.
    pub fn vertices(&self) -> (r: &[V])
        ensures
            r@ == self.spec_vertices(),
    {
        self.vertices.as_slice()
    }

    /// The appended triangles, in order.
    pub fn triangles(&self) -> (r: &[Triangle])
        ensures
            r@ == self.spec_triangles(),
    {
        self.triangles.as_slice()
    }

    /// The appended batches, in order.
    pub fn batches(&self) -> (r: &[(B, core::ops::Range<usize>)])
        ensures
            r@ == self.spec_batches(),
    {
        self.batches.as_slice()
    }
}

/// The batch list with the last range closed at `end`: what
/// [`VertexStream::batch_end`] leaves behind.
pub open spec fn close_last<B>(
    batches: Seq<(B, core::ops::Range<usize>)>,
    end: usize,
) -> Seq<(B, core::ops::Range<usize>)> {
    if batches.len() == 0 {
        batches
    } else {
        batches.update(
            batches.len() - 1,
            (batches.last().0, core::ops::Range { start: batches.last().1.start, end }),
        )
    }
}

impl<V, B> VertexStream<V, B> {
    /// Grows a buffer that has run out of room by one chunk, so that
    /// high-frequency appends amortize allocation; the contents are
    /// untouched.
    fn ensure_capacity(&mut self)
        ensures
            final(self).spec_vertices() == old(self).spec_vertices(),
            final(self).spec_triangles() == old(self).spec_triangles(),
            final(self).spec_batches() == old(self).spec_batches(),
            final(self).spec_resize_count() == old(self).spec_resize_count(),
    {
        if self.vertices.len() == vec_capacity(&self.vertices) {
            vec_reserve_exact(&mut self.vertices, self.resize_count);
        }
        if self.triangles.len() == vec_capacity(&self.triangles) {
            vec_reserve_exact(&mut self.triangles, self.resize_count);
        }
    }

    /// Closes the previous batch at the current triangle count and opens
    /// a new one with state `data`, starting (empty) at that count.
    pub fn batch(&mut self, data: B)
        ensures
            final(self).spec_vertices() == old(self).spec_vertices(),
            final(self).spec_triangles() == old(self).spec_triangles(),
            final(self).spec_resize_count() == old(self).spec_resize_count(),
            final(self).spec_batches() == close_last(
                old(self).spec_batches(),
                old(self).spec_triangles().len() as usize,
            ).push((data, core::ops::Range {
                start: old(self).spec_triangles().len() as usize,
                end: old(self).spec_triangles().len() as usize,
            })),
    {
        if self.batches.len() == vec_capacity(&self.batches) {
            vec_reserve_exact(&mut self.batches, self.resize_count);
        }
        self.batch_end();
        let start = self.triangles.len();
        self.batches.push((data, start..start));
    }

    /// Closes the last open batch by setting its range end to the
    /// current triangle count; does nothing on an empty batch list.
    pub fn batch_end(&mut self)
        ensures
            final(self).spec_vertices() == old(self).spec_vertices(),
            final(self).spec_triangles() == old(self).spec_triangles(),
            final(self).spec_resize_count() == old(self).spec_resize_count(),
            final(self).spec_batches() == close_last(
                old(self).spec_batches(),
                old(self).spec_triangles().len() as usize,
            ),
    {
        let n = self.batches.len();
        if n > 0 {
            let end = self.triangles.len();
            let last = &mut self.batches[n - 1];
            last.1.end = end;
            proof {
                assert(final(self).spec_batches() =~= close_last(
                    old(self).spec_batches(),
                    old(self).spec_triangles().len() as usize,
                ));
            }
        }
    }
}

/// The `i`-th triangle of a fan rooted at vertex `start`: every fan
/// triangle shares the first appended vertex.
pub open spec fn fan_triangle(start: int, i: int) -> Triangle {
    Triangle { a: start as u32, b: (start + i + 1) as u32, c: (start + i + 2) as u32 }
}

/// The `i`-th triangle of a strip beginning at vertex `start`; every
/// second triangle swaps its first two indices to keep the winding
/// order alternating.
pub open spec fn strip_triangle(start: int, i: int) -> Triangle {
    if i % 2 == 0 {
        Triangle { a: (start + i) as u32, b: (start + i + 1) as u32, c: (start + i + 2) as u32 }
    } else {
        Triangle { a: (start + i + 1) as u32, b: (start + i) as u32, c: (start + i + 2) as u32 }
    }
}

/// `t` with all three indices shifted up by `offset`.
pub open spec fn spec_offset_triangle(t: Triangle, offset: int) -> Triangle {
    Triangle { a: (t.a + offset) as u32, b: (t.b + offset) as u32, c: (t.c + offset) as u32 }
}

/// True when shifting every triangle in `s` up by `offset` stays within
/// `u32` indices.
pub open spec fn triangles_fit(s: Seq<Triangle>, offset: int) -> bool {
    forall|i: int|
        0 <= i < s.len() ==> #[trigger] s[i].a + offset <= u32::MAX && s[i].b + offset <= u32::MAX
            && s[i].c + offset <= u32::MAX
}

impl<V: Copy, B> VertexStream<V, B> {
    /// Appends three vertices and one triangle over them, the triangle's
    /// indices offset by the pre-call vertex count.
    pub fn triangle(&mut self, vertices: [V; 3]) -> (r: &mut Self)
        requires
            old(self).spec_vertices().len() + 3 <= u32::MAX,
        ensures
            r.spec_vertices() == old(self).spec_vertices() + vertices@,
            r.spec_triangles() == old(self).spec_triangles().push(
                fan_triangle(old(self).spec_vertices().len() as int, 0),
            ),
            r.spec_batches() == old(self).spec_batches(),
            r.spec_resize_count() == old(self).spec_resize_count(),
            *final(self) == *final(r),
    {
        self.ensure_capacity();
        let offset = self.vertices.len();
        self.vertices.push(vertices[0]);
        self.vertices.push(vertices[1]);
        self.vertices.push(vertices[2]);
        self.triangles.push(Triangle::default().offset(offset));
        proof {
            assert(self.spec_vertices() =~= old(self).spec_vertices() + vertices@);
        }
        self
    }

    /// Appends four vertices and the two triangles `(n, n+1, n+2)` and
    /// `(n+2, n+3, n)`, where `n` is the pre-call vertex count.
    pub fn quad(&mut self, vertices: [V; 4]) -> (r: &mut Self)
        requires
            old(self).spec_vertices().len() + 4 <= u32::MAX,
        ensures
            r.spec_vertices() == old(self).spec_vertices() + vertices@,
            r.spec_triangles() == old(self).spec_triangles().push(
                spec_offset_triangle(
                    Triangle { a: 0, b: 1, c: 2 },
                    old(self).spec_vertices().len() as int,
                ),
            ).push(
                spec_offset_triangle(
                    Triangle { a: 2, b: 3, c: 0 },
                    old(self).spec_vertices().len() as int,
                ),
            ),
            r.spec_batches() == old(self).spec_batches(),
            r.spec_resize_count() == old(self).spec_resize_count(),
            *final(self) == *final(r),
    {
        self.ensure_capacity();
        let offset = self.vertices.len();
        self.vertices.push(vertices[0]);
        self.vertices.push(vertices[1]);
        self.vertices.push(vertices[2]);
        self.vertices.push(vertices[3]);
        self.triangles.push(Triangle { a: 0, b: 1, c: 2 }.offset(offset));
        self.triangles.push(Triangle { a: 2, b: 3, c: 0 }.offset(offset));
        proof {
            assert(self.spec_vertices() =~= old(self).spec_vertices() + vertices@);
        }
        self
    }
}

/// How many triangles a fan or strip over `k` vertices emits: `k - 2`,
/// saturating at zero, so fewer than three vertices silently produce no
/// geometry.
pub open spec fn emitted_triangle_count(k: int) -> int {
    if k >= 2 {
        k - 2
    } else {
        0
    }
}

impl<V: Copy, B> VertexStream<V, B> {
    /// Appends all of `vertices` and emits a triangle fan over them:
    /// every emitted triangle shares the first appended vertex.
    pub fn triangle_fan(&mut self, vertices: &[V]) -> (r: &mut Self)
        requires
            old(self).spec_vertices().len() + vertices@.len() <= u32::MAX,
        ensures
            r.spec_vertices() == old(self).spec_vertices() + vertices@,
            r.spec_triangles() == old(self).spec_triangles() + Seq::new(
                emitted_triangle_count(vertices@.len() as int) as nat,
                |i: int| fan_triangle(old(self).spec_vertices().len() as int, i),
            ),
            r.spec_batches() == old(self).spec_batches(),
            r.spec_resize_count() == old(self).spec_resize_count(),
            *final(self) == *final(r),
    {
        self.ensure_capacity();
        let start = self.vertices.len();
        append_slice(&mut self.vertices, vertices);
        let count = if vertices.len() >= 2 {
            vertices.len() - 2
        } else {
            0
        };
        let ghost start_int = start as int;
        let mut j: usize = 0;
        while j < count
            invariant
                j <= count,
                count == emitted_triangle_count(vertices@.len() as int),
                start_int == old(self).spec_vertices().len(),
                start_int + vertices@.len() <= u32::MAX,
                start == start_int,
                self.spec_vertices() == old(self).spec_vertices() + vertices@,
                self.spec_triangles() == old(self).spec_triangles() + Seq::new(
                    j as nat,
                    |i: int| fan_triangle(start_int, i),
                ),
                self.spec_batches() == old(self).spec_batches(),
                self.spec_resize_count() == old(self).spec_resize_count(),
            decreases count - j,
        {
            let a = start as u32;
            let b = start as u32 + j as u32 + 1;
            let c = start as u32 + j as u32 + 2;
            self.triangles.push(Triangle { a, b, c });
            j += 1;
            proof {
                assert(self.spec_triangles() =~= old(self).spec_triangles() + Seq::new(
                    j as nat,
                    |i: int| fan_triangle(start_int, i),
                ));
            }
        }
        self
    }

    /// Appends all of `vertices` and emits a triangle strip over them,
    /// with alternating winding order.
    pub fn triangle_strip(&mut self, vertices: &[V]) -> (r: &mut Self)
        requires
            old(self).spec_vertices().len() + vertices@.len() <= u32::MAX,
        ensures
            r.spec_vertices() == old(self).spec_vertices() + vertices@,
            r.spec_triangles() == old(self).spec_triangles() + Seq::new(
                emitted_triangle_count(vertices@.len() as int) as nat,
                |i: int| strip_triangle(old(self).spec_vertices().len() as int, i),
            ),
            r.spec_batches() == old(self).spec_batches(),
            r.spec_resize_count() == old(self).spec_resize_count(),
            *final(self) == *final(r),
    {
        self.ensure_capacity();
        let start = self.vertices.len();
        append_slice(&mut self.vertices, vertices);
        let count = if vertices.len() >= 2 {
            vertices.len() - 2
        } else {
            0
        };
        let ghost start_int = start as int;
        let mut j: usize = 0;
        let mut flip = false;
        while j < count
            invariant
                j <= count,
                count == emitted_triangle_count(vertices@.len() as int),
                start_int == old(self).spec_vertices().len(),
                start_int + vertices@.len() <= u32::MAX,
                start == start_int,
                flip == (j % 2 == 1),
                self.spec_vertices() == old(self).spec_vertices() + vertices@,
                self.spec_triangles() == old(self).spec_triangles() + Seq::new(
                    j as nat,
                    |i: int| strip_triangle(start_int, i),
                ),
                self.spec_batches() == old(self).spec_batches(),
                self.spec_resize_count() == old(self).spec_resize_count(),
            decreases count - j,
        {
            let lo = start as u32 + j as u32;
            let t = if flip {
                Triangle { a: lo + 1, b: lo, c: lo + 2 }
            } else {
                Triangle { a: lo, b: lo + 1, c: lo + 2 }
            };
            self.triangles.push(t);
            j += 1;
            flip = !flip;
            proof {
                assert(self.spec_triangles() =~= old(self).spec_triangles() + Seq::new(
                    j as nat,
                    |i: int| strip_triangle(start_int, i),
                ));
            }
        }
        self
    }

    /// Bulk-appends vertices and triangles, offsetting every supplied
    /// triangle by the pre-call vertex count so callers may author
    /// triangles as if starting from index zero.
    pub fn extend(&mut self, vertices: &[V], triangles: &[Triangle]) -> (r: &mut Self)
        requires
            triangles_fit(triangles@, old(self).spec_vertices().len() as int),
        ensures
            r.spec_vertices() == old(self).spec_vertices() + vertices@,
            r.spec_triangles() == old(self).spec_triangles() + Seq::new(
                triangles@.len(),
                |i: int| spec_offset_triangle(
                    triangles@[i],
                    old(self).spec_vertices().len() as int,
                ),
            ),
            r.spec_batches() == old(self).spec_batches(),
            r.spec_resize_count() == old(self).spec_resize_count(),
            *final(self) == *final(r),
    {
        self.ensure_capacity();
        let offset = self.vertices.len();
        append_slice(&mut self.vertices, vertices);
        append_offset_triangles(&mut self.triangles, triangles, offset);
        self
    }
}

impl<V: Copy, B> VertexStream<V, B> {
    /// Appends raw vertices with no index translation. Writing vertices
    /// that existing triangles do not expect can produce invalid
    /// renderables; the caller is responsible for the data's shape.
    pub fn extend_vertices(&mut self, vertices: &[V]) -> (r: &Self)
        ensures
            final(self).spec_vertices() == old(self).spec_vertices() + vertices@,
            final(self).spec_triangles() == old(self).spec_triangles(),
            final(self).spec_batches() == old(self).spec_batches(),
            final(self).spec_resize_count() == old(self).spec_resize_count(),
            *r == *final(self),
    {
        append_slice(&mut self.vertices, vertices);
        self
    }
}

impl<V, B> VertexStream<V, B> {
    /// Appends raw triangles; with `relative` they are offset by the
    /// current vertex count, otherwise copied as given. Indices that do
    /// not match the vertex buffer produce invalid renderables; the
    /// caller is responsible for them.
    pub fn extend_triangles(&mut self, relative: bool, triangles: &[Triangle]) -> (r: &Self)
        requires
            relative ==> triangles_fit(triangles@, old(self).spec_vertices().len() as int),
        ensures
            final(self).spec_vertices() == old(self).spec_vertices(),
            relative ==> final(self).spec_triangles() == old(self).spec_triangles() + Seq::new(
                triangles@.len(),
                |i: int| spec_offset_triangle(
                    triangles@[i],
                    old(self).spec_vertices().len() as int,
                ),
            ),
            !relative ==> final(self).spec_triangles() == old(self).spec_triangles()
                + triangles@,
            final(self).spec_batches() == old(self).spec_batches(),
            final(self).spec_resize_count() == old(self).spec_resize_count(),
            *r == *final(self),
    {
        if relative {
            let offset = self.vertices.len();
            append_offset_triangles(&mut self.triangles, triangles, offset);
        } else {
            append_slice(&mut self.triangles, triangles);
        }
        self
    }

    /// Appends raw batches with no range translation. Ranges that do not
    /// match the triangle buffer produce invalid renderables; the caller
    /// is responsible for them.
    pub fn extend_batches(&mut self, batches: Vec<(B, core::ops::Range<usize>)>) -> (r: &Self)
        ensures
            final(self).spec_vertices() == old(self).spec_vertices(),
            final(self).spec_triangles() == old(self).spec_triangles(),
            final(self).spec_batches() == old(self).spec_batches() + batches@,
            final(self).spec_resize_count() == old(self).spec_resize_count(),
            *r == *final(self),
    {
        let mut incoming = batches;
        self.batches.append(&mut incoming);
        self
    }
}

/// The batch list after a merged [`VertexStream::batch_optimized`] call:
/// the last range is extended to `end` and no new batch is opened.
pub open spec fn merged_last<B>(
    batches: Seq<(B, core::ops::Range<usize>)>,
    end: usize,
) -> Seq<(B, core::ops::Range<usize>)>
    recommends
        batches.len() > 0,
{
    batches.update(
        batches.len() - 1,
        (batches.last().0, core::ops::Range { start: batches.last().1.start, end }),
    )
}

impl<V, B: PartialEq> VertexStream<V, B> {
    /// Like [`Self::batch`], but when the previous batch's state equals
    /// `data` it extends that batch's range to the current triangle
    /// count instead of opening a new batch. This is the mechanism that
    /// reduces GPU state changes between draws that share render state.
    ///
    /// Which branch is taken is decided by `B`'s `==`; when that
    /// operator obeys its specification, the batch is merged exactly
    /// when the previous state compares equal to `data`.
    pub fn batch_optimized(&mut self, data: B)
        ensures
            final(self).spec_vertices() == old(self).spec_vertices(),
            final(self).spec_triangles() == old(self).spec_triangles(),
            final(self).spec_resize_count() == old(self).spec_resize_count(),
            final(self).spec_batches() == merged_last(
                old(self).spec_batches(),
                old(self).spec_triangles().len() as usize,
            ) && old(self).spec_batches().len() > 0 || final(self).spec_batches() == close_last(
                old(self).spec_batches(),
                old(self).spec_triangles().len() as usize,
            ).push((
                data,
                core::ops::Range {
                    start: old(self).spec_triangles().len() as usize,
                    end: old(self).spec_triangles().len() as usize,
                },
            )),
            B::obeys_eq_spec() ==> final(self).spec_batches() == if old(
                self,
            ).spec_batches().len() > 0 && old(self).spec_batches().last().0.eq_spec(&data) {
                merged_last(old(self).spec_batches(), old(self).spec_triangles().len() as usize)
            } else {
                close_last(
                    old(self).spec_batches(),
                    old(self).spec_triangles().len() as usize,
                ).push((
                    data,
                    core::ops::Range {
                        start: old(self).spec_triangles().len() as usize,
                        end: old(self).spec_triangles().len() as usize,
                    },
                ))
            },
    {
        let n = self.batches.len();
        if n > 0 {
            let merge = self.batches[n - 1].0 == data;
            if merge {
                let end = self.triangles.len();
                let last = &mut self.batches[n - 1];
                last.1.end = end;
                proof {
                    assert(final(self).spec_batches() =~= merged_last(
                        old(self).spec_batches(),
                        old(self).spec_triangles().len() as usize,
                    ));
                }
                return ;
            }
        }
        self.batch(data);
    }
}

/// `b` with its triangle range shifted up by `offset`.
pub open spec fn shifted_batch<B>(b: (B, core::ops::Range<usize>), offset: int) -> (
    B,
    core::ops::Range<usize>,
) {
    (
        b.0,
        core::ops::Range {
            start: (b.1.start + offset) as usize,
            end: (b.1.end + offset) as usize,
        },
    )
}

/// True when shifting every range in `s` up by `offset` stays within
/// `usize`.
pub open spec fn ranges_fit<B>(s: Seq<(B, core::ops::Range<usize>)>, offset: int) -> bool {
    forall|i: int|
        0 <= i < s.len() ==> #[trigger] s[i].1.start + offset <= usize::MAX && s[i].1.end + offset
            <= usize::MAX
}

/// `t` with all three indices shifted down by `offset`: the re-basing
/// that [`VertexStream::extract`] applies to a moved suffix.
pub open spec fn rebased_triangle(t: Triangle, offset: int) -> Triangle {
    Triangle { a: (t.a - offset) as u32, b: (t.b - offset) as u32, c: (t.c - offset) as u32 }
}

/// `b` with its triangle range shifted down by `offset`.
pub open spec fn rebased_batch<B>(b: (B, core::ops::Range<usize>), offset: int) -> (
    B,
    core::ops::Range<usize>,
) {
    (
        b.0,
        core::ops::Range {
            start: (b.1.start - offset) as usize,
            end: (b.1.end - offset) as usize,
        },
    )
}

/// True when every triangle of `s` refers only to vertices at or above
/// `base`, so re-basing them by `base` cannot underflow.
pub open spec fn triangles_above(s: Seq<Triangle>, base: int) -> bool {
    forall|i: int|
        0 <= i < s.len() ==> #[trigger] s[i].a >= base && s[i].b >= base && s[i].c >= base
}

/// True when every range of `s` starts and ends at or above `base`.
pub open spec fn ranges_above<B>(s: Seq<(B, core::ops::Range<usize>)>, base: int) -> bool {
    forall|i: int| 0 <= i < s.len() ==> #[trigger] s[i].1.start >= base && s[i].1.end >= base
}

impl<V: Copy, B> VertexStream<V, B> {
    /// Splices another stream's full contents onto the end, draining
    /// `other` and translating all of its triangle indices and batch
    /// ranges by this stream's pre-call lengths.
    pub fn append(&mut self, other: &mut Self)
        requires
            triangles_fit(old(other).spec_triangles(), old(self).spec_vertices().len() as int),
            ranges_fit(old(other).spec_batches(), old(self).spec_triangles().len() as int),
        ensures
            final(self).spec_vertices() == old(self).spec_vertices() + old(other).spec_vertices(),
            final(self).spec_triangles() == old(self).spec_triangles() + Seq::new(
                old(other).spec_triangles().len(),
                |i: int| spec_offset_triangle(
                    old(other).spec_triangles()[i],
                    old(self).spec_vertices().len() as int,
                ),
            ),
            final(self).spec_batches() == old(self).spec_batches() + Seq::new(
                old(other).spec_batches().len(),
                |i: int| shifted_batch(
                    old(other).spec_batches()[i],
                    old(self).spec_triangles().len() as int,
                ),
            ),
            final(self).spec_resize_count() == old(self).spec_resize_count(),
            final(other).spec_vertices() == Seq::<V>::empty(),
            final(other).spec_triangles() == Seq::<Triangle>::empty(),
            final(other).spec_batches() == Seq::<(B, core::ops::Range<usize>)>::empty(),
            final(other).spec_resize_count() == old(other).spec_resize_count(),
    {
        let triangle_offset = self.triangles.len();
        let vertex_offset = self.vertices.len();
        self.vertices.append(&mut other.vertices);
        append_offset_triangles(&mut self.triangles, other.triangles.as_slice(), vertex_offset);
        other.triangles.clear();
        move_shifted_batches(&mut self.batches, &mut other.batches, triangle_offset);
    }

    /// Splices a copy of another stream's full contents onto the end,
    /// translating all indices and ranges by this stream's pre-call
    /// lengths; `other` is left unchanged.
    pub fn append_cloned(&mut self, other: &Self) where B: Clone
        requires
            triangles_fit(other.spec_triangles(), old(self).spec_vertices().len() as int),
            ranges_fit(other.spec_batches(), old(self).spec_triangles().len() as int),
        ensures
            final(self).spec_vertices() == old(self).spec_vertices() + other.spec_vertices(),
            final(self).spec_triangles() == old(self).spec_triangles() + Seq::new(
                other.spec_triangles().len(),
                |i: int| spec_offset_triangle(
                    other.spec_triangles()[i],
                    old(self).spec_vertices().len() as int,
                ),
            ),
            final(self).spec_batches().len() == old(self).spec_batches().len()
                + other.spec_batches().len(),
            final(self).spec_batches().subrange(
                0,
                old(self).spec_batches().len() as int,
            ) == old(self).spec_batches(),
            forall|i: int|
                0 <= i < other.spec_batches().len()
                    ==> (#[trigger] final(self).spec_batches()[old(self).spec_batches().len()
                    + i]).1 == shifted_batch(
                    other.spec_batches()[i],
                    old(self).spec_triangles().len() as int,
                ).1,
            forall|i: int|
                0 <= i < other.spec_batches().len() ==> vstd::pervasive::cloned::<B>(
                    other.spec_batches()[i].0,
                    (#[trigger] final(self).spec_batches()[old(self).spec_batches().len() + i]).0,
                ),
            final(self).spec_resize_count() == old(self).spec_resize_count(),
    {
        let triangle_offset = self.triangles.len();
        let vertex_offset = self.vertices.len();
        append_slice(&mut self.vertices, other.vertices.as_slice());
        append_offset_triangles(&mut self.triangles, other.triangles.as_slice(), vertex_offset);
        let n = other.batches.len();
        let ghost base = self.batches@.len() as int;
        let mut i: usize = 0;
        while i < n
            invariant
                i <= n,
                n == other.spec_batches().len(),
                base == old(self).spec_batches().len(),
                ranges_fit(other.spec_batches(), triangle_offset as int),
                self.spec_vertices() == old(self).spec_vertices() + other.spec_vertices(),
                self.spec_triangles() == old(self).spec_triangles() + Seq::new(
                    other.spec_triangles().len(),
                    |k: int| spec_offset_triangle(
                        other.spec_triangles()[k],
                        old(self).spec_vertices().len() as int,
                    ),
                ),
                self.spec_batches().len() == base + i,
                self.spec_batches().subrange(0, base) == old(self).spec_batches(),
                forall|k: int|
                    0 <= k < i ==> (#[trigger] self.spec_batches()[base + k]).1 == shifted_batch(
                        other.spec_batches()[k],
                        triangle_offset as int,
                    ).1 && vstd::pervasive::cloned::<B>(
                        other.spec_batches()[k].0,
                        self.spec_batches()[base + k].0,
                    ),
                self.spec_resize_count() == old(self).spec_resize_count(),
            decreases n - i,
        {
            let entry = &other.batches[i];
            let data = entry.0.clone();
            let start = entry.1.start + triangle_offset;
            let end = entry.1.end + triangle_offset;
            self.batches.push((data, start..end));
            i += 1;
            proof {
                assert(self.spec_batches().subrange(0, base) =~= old(self).spec_batches());
            }
        }
        proof {
            assert forall|k: int|
                0 <= k < other.spec_batches().len() implies (#[trigger] self.spec_batches()[old(
                self,
            ).spec_batches().len() + k]).1 == shifted_batch(
                other.spec_batches()[k],
                old(self).spec_triangles().len() as int,
            ).1 && vstd::pervasive::cloned::<B>(
                other.spec_batches()[k].0,
                self.spec_batches()[old(self).spec_batches().len() + k].0,
            ) by {
                assert(self.spec_batches()[base + k].1 == shifted_batch(
                    other.spec_batches()[k],
                    triangle_offset as int,
                ).1);
                assert(vstd::pervasive::cloned::<B>(
                    other.spec_batches()[k].0,
                    self.spec_batches()[base + k].0,
                ));
            }
        }
    }

    /// Moves everything appended strictly after `token` into a newly
    /// returned stream, re-indexing the moved triangles and batch ranges
    /// to be zero-based there, and truncates this stream back to the
    /// token's lengths. The token must describe a true suffix: the moved
    /// triangles may refer only to moved vertices, and the moved ranges
    /// only to moved triangles.
    pub fn extract(&mut self, token: VertexStreamToken) -> (r: Self)
        requires
            token.spec_vertices() <= old(self).spec_vertices().len(),
            token.spec_triangles() <= old(self).spec_triangles().len(),
            token.spec_batches() <= old(self).spec_batches().len(),
            triangles_above(
                old(self).spec_triangles().skip(token.spec_triangles()),
                token.spec_vertices(),
            ),
            ranges_above(
                old(self).spec_batches().skip(token.spec_batches()),
                token.spec_triangles(),
            ),
        ensures
            r.spec_vertices() == old(self).spec_vertices().skip(token.spec_vertices()),
            r.spec_triangles() == Seq::new(
                (old(self).spec_triangles().len() - token.spec_triangles()) as nat,
                |i: int| rebased_triangle(
                    old(self).spec_triangles()[token.spec_triangles() + i],
                    token.spec_vertices(),
                ),
            ),
            r.spec_batches() == Seq::new(
                (old(self).spec_batches().len() - token.spec_batches()) as nat,
                |i: int| rebased_batch(
                    old(self).spec_batches()[token.spec_batches() + i],
                    token.spec_triangles(),
                ),
            ),
            r.spec_resize_count() == old(self).spec_resize_count(),
            final(self).spec_vertices() == old(self).spec_vertices().take(token.spec_vertices()),
            final(self).spec_triangles() == old(self).spec_triangles().take(
                token.spec_triangles(),
            ),
            final(self).spec_batches() == old(self).spec_batches().take(token.spec_batches()),
            final(self).spec_resize_count() == old(self).spec_resize_count(),
    {
        let mut result = self.fork();
        result.vertices = self.vertices.split_off(token.vertices);
        let moved_triangles = self.triangles.split_off(token.triangles);
        let n = moved_triangles.len();
        let mut i: usize = 0;
        while i < n
            invariant
                i <= n,
                n == moved_triangles@.len(),
                triangles_above(moved_triangles@, token.spec_vertices()),
                token.spec_vertices() == token.vertices as int,
                result.spec_vertices() == old(self).spec_vertices().skip(token.spec_vertices()),
                result.spec_batches() == Seq::<(B, core::ops::Range<usize>)>::empty(),
                result.spec_resize_count() == old(self).spec_resize_count(),
                result.triangles@ == Seq::new(
                    i as nat,
                    |k: int| rebased_triangle(moved_triangles@[k], token.spec_vertices()),
                ),
            decreases n - i,
        {
            let t = moved_triangles[i];
            result.triangles.push(
                Triangle {
                    a: (t.a as usize - token.vertices) as u32,
                    b: (t.b as usize - token.vertices) as u32,
                    c: (t.c as usize - token.vertices) as u32,
                },
            );
            i += 1;
            proof {
                assert(result.triangles@ =~= Seq::new(
                    i as nat,
                    |k: int| rebased_triangle(moved_triangles@[k], token.spec_vertices()),
                ));
            }
        }
        let mut moved_batches = self.batches.split_off(token.batches);
        move_rebased_batches(&mut result.batches, &mut moved_batches, token.triangles);
        proof {
            assert(result.spec_vertices() =~= old(self).spec_vertices().skip(
                token.spec_vertices(),
            ));
            assert(result.spec_batches() =~= Seq::new(
                (old(self).spec_batches().len() - token.spec_batches()) as nat,
                |i: int| rebased_batch(
                    old(self).spec_batches()[token.spec_batches() + i],
                    token.spec_triangles(),
                ),
            ));
        }
        result
    }

    /// Returns the whole contents — vertices, triangles, batches in
    /// order — for the final submission step, leaving the stream empty.
    /// The last open batch is closed first.
    pub fn drain(&mut self) -> (r: (Vec<V>, Vec<Triangle>, Vec<(B, core::ops::Range<usize>)>))
        ensures
            r.0@ == old(self).spec_vertices(),
            r.1@ == old(self).spec_triangles(),
            r.2@ == close_last(old(self).spec_batches(), old(self).spec_triangles().len() as usize),
            final(self).spec_vertices() == Seq::<V>::empty(),
            final(self).spec_triangles() == Seq::<Triangle>::empty(),
            final(self).spec_batches() == Seq::<(B, core::ops::Range<usize>)>::empty(),
            final(self).spec_resize_count() == old(self).spec_resize_count(),
    {
        self.batch_end();
        let mut vertices: Vec<V> = Vec::new();
        let mut triangles: Vec<Triangle> = Vec::new();
        let mut batches: Vec<(B, core::ops::Range<usize>)> = Vec::new();
        core::mem::swap(&mut vertices, &mut self.vertices);
        core::mem::swap(&mut triangles, &mut self.triangles);
        core::mem::swap(&mut batches, &mut self.batches);
        (vertices, triangles, batches)
    }

    /// Applies `transform` to every vertex at index `start` or later:
    /// the placement half of authoring geometry in local space. Callers
    /// record `start` (for example through [`Self::token`]) before
    /// appending, then place the appended run in a single pass.
    pub fn transformed<T: Fn(V) -> V>(&mut self, start: usize, transform: T) -> (r: &mut Self)
        requires
            forall|i: int|
                start <= i < old(self).spec_vertices().len() ==> call_requires(
                    transform,
                    (#[trigger] old(self).spec_vertices()[i],),
                ),
        ensures
            r.spec_vertices().len() == old(self).spec_vertices().len(),
            forall|i: int|
                0 <= i < start && i < old(self).spec_vertices().len()
                    ==> #[trigger] r.spec_vertices()[i] == old(self).spec_vertices()[i],
            forall|i: int|
                start <= i < old(self).spec_vertices().len() ==> call_ensures(
                    transform,
                    (old(self).spec_vertices()[i],),
                    #[trigger] r.spec_vertices()[i],
                ),
            r.spec_triangles() == old(self).spec_triangles(),
            r.spec_batches() == old(self).spec_batches(),
            r.spec_resize_count() == old(self).spec_resize_count(),
            *final(self) == *final(r),
    {
        let n = self.vertices.len();
        let mut i: usize = start;
        while i < n
            invariant
                start <= i <= n || (n < start && i == start),
                n == self.spec_vertices().len(),
                self.spec_vertices().len() == old(self).spec_vertices().len(),
                forall|k: int|
                    start <= k < old(self).spec_vertices().len() ==> call_requires(
                        transform,
                        (#[trigger] old(self).spec_vertices()[k],),
                    ),
                forall|k: int|
                    0 <= k < old(self).spec_vertices().len() && !(start <= k < i)
                        ==> #[trigger] self.spec_vertices()[k] == old(self).spec_vertices()[k],
                forall|k: int|
                    start <= k < i ==> call_ensures(
                        transform,
                        (old(self).spec_vertices()[k],),
                        #[trigger] self.spec_vertices()[k],
                    ),
                self.spec_triangles() == old(self).spec_triangles(),
                self.spec_batches() == old(self).spec_batches(),
                self.spec_resize_count() == old(self).spec_resize_count(),
            decreases n - i,
        {
            let v = self.vertices[i];
            let w = transform(v);
            self.vertices[i] = w;
            i += 1;
        }
        self
    }
}

/// Moves every batch of `src` onto `dst` in order, shifting each range
/// up by `offset`; `src` is left empty.
fn move_shifted_batches<B>(
    dst: &mut Vec<(B, core::ops::Range<usize>)>,
    src: &mut Vec<(B, core::ops::Range<usize>)>,
    offset: usize,
)
    requires
        ranges_fit(old(src)@, offset as int),
    ensures
        final(dst)@ == old(dst)@ + Seq::new(
            old(src)@.len(),
            |i: int| shifted_batch(old(src)@[i], offset as int),
        ),
        final(src)@ == Seq::<(B, core::ops::Range<usize>)>::empty(),
{
    let ghost src0 = old(src)@;
    let mut reversed: Vec<(B, core::ops::Range<usize>)> = Vec::new();
    while src.len() > 0
        invariant
            src@ == src0.take(src@.len() as int),
            reversed@.len() + src@.len() == src0.len(),
            forall|i: int|
                0 <= i < reversed@.len() ==> #[trigger] reversed@[i] == src0[src0.len() - 1 - i],
        decreases src.len(),
    {
        proof {
            assert(src@.last() == src0[src@.len() - 1]);
        }
        if let Some(entry) = src.pop() {
            reversed.push(entry);
        }
        proof {
            assert(src@ =~= src0.take(src@.len() as int));
        }
    }
    while reversed.len() > 0
        invariant
            ranges_fit(src0, offset as int),
            reversed@.len() <= src0.len(),
            forall|i: int|
                0 <= i < reversed@.len() ==> #[trigger] reversed@[i] == src0[src0.len() - 1 - i],
            dst@ == old(dst)@ + Seq::new(
                (src0.len() - reversed@.len()) as nat,
                |i: int| shifted_batch(src0[i], offset as int),
            ),
        decreases reversed.len(),
    {
        proof {
            assert(reversed@.last() == src0[src0.len() - reversed@.len()]);
        }
        if let Some(entry) = reversed.pop() {
            let (data, range) = entry;
            let start = range.start + offset;
            let end = range.end + offset;
            dst.push((data, start..end));
        }
        proof {
            assert(dst@ =~= old(dst)@ + Seq::new(
                (src0.len() - reversed@.len()) as nat,
                |i: int| shifted_batch(src0[i], offset as int),
            ));
        }
    }
}

/// Moves every batch of `src` onto `dst` in order, shifting each range
/// down by `offset`; `src` is left empty.
fn move_rebased_batches<B>(
    dst: &mut Vec<(B, core::ops::Range<usize>)>,
    src: &mut Vec<(B, core::ops::Range<usize>)>,
    offset: usize,
)
    requires
        ranges_above(old(src)@, offset as int),
    ensures
        final(dst)@ == old(dst)@ + Seq::new(
            old(src)@.len(),
            |i: int| rebased_batch(old(src)@[i], offset as int),
        ),
        final(src)@ == Seq::<(B, core::ops::Range<usize>)>::empty(),
{
    let ghost src0 = old(src)@;
    let mut reversed: Vec<(B, core::ops::Range<usize>)> = Vec::new();
    while src.len() > 0
        invariant
            src@ == src0.take(src@.len() as int),
            reversed@.len() + src@.len() == src0.len(),
            forall|i: int|
                0 <= i < reversed@.len() ==> #[trigger] reversed@[i] == src0[src0.len() - 1 - i],
        decreases src.len(),
    {
        proof {
            assert(src@.last() == src0[src@.len() - 1]);
        }
        if let Some(entry) = src.pop() {
            reversed.push(entry);
        }
        proof {
            assert(src@ =~= src0.take(src@.len() as int));
        }
    }
    while reversed.len() > 0
        invariant
            ranges_above(src0, offset as int),
            reversed@.len() <= src0.len(),
            forall|i: int|
                0 <= i < reversed@.len() ==> #[trigger] reversed@[i] == src0[src0.len() - 1 - i],
            dst@ == old(dst)@ + Seq::new(
                (src0.len() - reversed@.len()) as nat,
                |i: int| rebased_batch(src0[i], offset as int),
            ),
        decreases reversed.len(),
    {
        proof {
            assert(reversed@.last() == src0[src0.len() - reversed@.len()]);
        }
        if let Some(entry) = reversed.pop() {
            let (data, range) = entry;
            let start = range.start - offset;
            let end = range.end - offset;
            dst.push((data, start..end));
        }
        proof {
            assert(dst@ =~= old(dst)@ + Seq::new(
                (src0.len() - reversed@.len()) as nat,
                |i: int| rebased_batch(src0[i], offset as int),
            ));
        }
    }
}

/// Appends a copy of every element of `src` onto `dst`, in order.
fn append_slice<T: Copy>(dst: &mut Vec<T>, src: &[T])
    ensures
        final(dst)@ == old(dst)@ + src@,
{
    let n = src.len();
    let mut i: usize = 0;
    while i < n
        invariant
            i <= n,
            n == src@.len(),
            dst@ == old(dst)@ + src@.subrange(0, i as int),
        decreases n - i,
    {
        dst.push(src[i]);
        i += 1;
        proof {
            assert(dst@ =~= old(dst)@ + src@.subrange(0, i as int));
        }
    }
    proof {
        assert(src@.subrange(0, src@.len() as int) =~= src@);
    }
}

/// Appends every triangle of `src` onto `dst`, shifted up by `offset`.
fn append_offset_triangles(dst: &mut Vec<Triangle>, src: &[Triangle], offset: usize)
    requires
        triangles_fit(src@, offset as int),
    ensures
        final(dst)@ == old(dst)@ + Seq::new(
            src@.len(),
            |i: int| spec_offset_triangle(src@[i], offset as int),
        ),
{
    let n = src.len();
    let mut i: usize = 0;
    while i < n
        invariant
            i <= n,
            n == src@.len(),
            triangles_fit(src@, offset as int),
            dst@ == old(dst)@ + Seq::new(
                i as nat,
                |k: int| spec_offset_triangle(src@[k], offset as int),
            ),
        decreases n - i,
    {
        dst.push(src[i].offset(offset));
        i += 1;
        proof {
            assert(dst@ =~= old(dst)@ + Seq::new(
                i as nat,
                |k: int| spec_offset_triangle(src@[k], offset as int),
            ));
        }
    }
}

impl<V, B> Default for VertexStream<V, B> {
    /// An empty stream with the default growth chunk of 1024 elements.
    fn default() -> (r: Self)
        ensures
            r.spec_vertices() == Seq::<V>::empty(),
            r.spec_triangles() == Seq::<Triangle>::empty(),
            r.spec_batches() == Seq::<(B, core::ops::Range<usize>)>::empty(),
            r.spec_resize_count() == 1024,
    {
        Self::new(1024)
    }
}

impl<V: Copy, B: Clone> Clone for VertexStream<V, B> {
    /// Copies the stream: vertices, triangles and ranges are equal, and
    /// each batch state is a clone of the original.
    fn clone(&self) -> (r: Self)
        ensures
            r.spec_vertices() == self.spec_vertices(),
            r.spec_triangles() == self.spec_triangles(),
            r.spec_batches().len() == self.spec_batches().len(),
            forall|i: int|
                0 <= i < self.spec_batches().len()
                    ==> #[trigger] r.spec_batches()[i].1 == self.spec_batches()[i].1
                    && vstd::pervasive::cloned::<B>(
                    self.spec_batches()[i].0,
                    r.spec_batches()[i].0,
                ),
            r.spec_resize_count() == self.spec_resize_count(),
    {
        let mut result = Self::new(self.resize_count);
        append_slice(&mut result.vertices, self.vertices.as_slice());
        append_slice(&mut result.triangles, self.triangles.as_slice());
        let n = self.batches.len();
        let mut i: usize = 0;
        while i < n
            invariant
                i <= n,
                n == self.spec_batches().len(),
                result.spec_vertices() == self.spec_vertices(),
                result.spec_triangles() == self.spec_triangles(),
                result.spec_resize_count() == self.spec_resize_count(),
                result.spec_batches().len() == i,
                forall|k: int|
                    0 <= k < i ==> #[trigger] result.spec_batches()[k].1
                        == self.spec_batches()[k].1 && vstd::pervasive::cloned::<B>(
                        self.spec_batches()[k].0,
                        result.spec_batches()[k].0,
                    ),
            decreases n - i,
        {
            let entry = &self.batches[i];
            let data = entry.0.clone();
            let start = entry.1.start;
            let end = entry.1.end;
            result.batches.push((data, start..end));
            i += 1;
        }
        result
    }
}

/// A consumer of a finalized stream: the submission step that a draw
/// backend implements.
pub trait VertexStreamRenderer<V, B> {
    type Error;

    fn render(&mut self, stream: &mut VertexStream<V, B>) -> Result<(), Self::Error>;
}

impl<V, B> VertexStreamRenderer<V, B> for () {
    type Error = ();

    fn render(&mut self, stream: &mut VertexStream<V, B>) -> (r: Result<(), ()>)
        ensures
            r == Ok::<(), ()>(()),
    {
        Ok(())
    }
}

impl<V, B> VertexStream<V, B> {
    /// Closes the last open batch, then hands the stream to `renderer`
    /// for submission.
    pub fn render<R: VertexStreamRenderer<V, B>>(&mut self, renderer: &mut R) -> Result<
        (),
        R::Error,
    > {
        self.batch_end();
        renderer.render(self)
    }
}

/// A triangle fan over `k` appended vertices starting at vertex `start`
/// emits exactly `k - 2` triangles (saturating at zero), and every one
/// of them shares the first appended vertex.
pub proof fn lemma_fan_triangles_share_first(start: int, k: int)
    requires
        0 <= start,
        start + k <= u32::MAX,
    ensures
        forall|i: int|
            0 <= i < emitted_triangle_count(k) ==> (#[trigger] fan_triangle(start, i)).a == start,
{
}

/// Batch ranges chained end-to-start from zero: each range begins
/// where the previous one ended, the first at zero, and no range runs
/// backwards or past the triangle count `n`. Every stream built through
/// the batch operations keeps this shape; the raw batch append does
/// not.
pub open spec fn batches_chained<B>(
    batches: Seq<(B, core::ops::Range<usize>)>,
    n: int,
) -> bool {
    &&& forall|i: int|
        0 <= i < batches.len() ==> (#[trigger] batches[i]).1.start == (if i == 0 {
            0int
        } else {
            batches[i - 1].1.end as int
        })
    &&& forall|i: int|
        0 <= i < batches.len() ==> (#[trigger] batches[i]).1.start <= batches[i].1.end <= n
}

/// Chained batches stay chained when more triangles are appended.
pub proof fn lemma_chained_grows<B>(batches: Seq<(B, core::ops::Range<usize>)>, n: int, m: int)
    requires
        batches_chained(batches, n),
        n <= m,
    ensures
        batches_chained(batches, m),
{
}

/// Opening a new batch — closing the last range at the current
/// triangle count and pushing an empty range there — keeps the batch
/// list chained.
pub proof fn lemma_batch_keeps_chained<B>(
    batches: Seq<(B, core::ops::Range<usize>)>,
    data: B,
    n: usize,
)
    requires
        batches_chained(batches, n as int),
        batches.len() > 0 || n == 0,
    ensures
        batches_chained(
            close_last(batches, n).push(
                (data, core::ops::Range { start: n, end: n }),
            ),
            n as int,
        ),
{
    let closed = close_last(batches, n);
    let pushed = closed.push((data, core::ops::Range { start: n, end: n }));
    assert forall|i: int|
        0 <= i < pushed.len() implies (#[trigger] pushed[i]).1.start == (if i == 0 {
        0int
    } else {
        pushed[i - 1].1.end as int
    }) && pushed[i].1.start <= pushed[i].1.end <= n as int by {
        if i < batches.len() {
            assert(closed[i].1.start == batches[i].1.start);
            if i < batches.len() - 1 {
                assert(closed[i].1.end == batches[i].1.end);
            } else {
                assert(closed[i].1.end == n);
            }
            if i > 0 {
                assert(closed[i - 1].1.end == batches[i - 1].1.end);
            }
        } else {
            assert(pushed[i] == (data, core::ops::Range { start: n, end: n }));
            if batches.len() > 0 {
                assert(pushed[i - 1].1.end == n);
            }
        }
    }
}

/// Extending the last range to the current triangle count — the merged
/// case of `batch_optimized` — keeps the batch list chained.
pub proof fn lemma_merge_keeps_chained<B>(batches: Seq<(B, core::ops::Range<usize>)>, n: usize)
    requires
        batches_chained(batches, n as int),
        batches.len() > 0,
    ensures
        batches_chained(merged_last(batches, n), n as int),
{
}

/// The batch partition contract: once a non-empty chained batch list is
/// finalized at triangle count `n`, its ranges are sorted,
/// non-overlapping, and partition `[0, n)` with no gaps — the first
/// starts at zero, each next one starts where the previous ended, and
/// the last ends at `n`.
pub proof fn lemma_finalized_batches_partition<B>(
    batches: Seq<(B, core::ops::Range<usize>)>,
    n: usize,
)
    requires
        batches_chained(batches, n as int),
        batches.len() > 0,
    ensures
        batches_chained(close_last(batches, n), n as int),
        close_last(batches, n)[0].1.start == 0,
        close_last(batches, n).last().1.end == n,
        close_last(batches, n).len() == batches.len(),
{
    let closed = close_last(batches, n);
    assert(closed[batches.len() - 1].1.end == n);
    assert forall|i: int|
        0 <= i < closed.len() implies (#[trigger] closed[i]).1.start == (if i == 0 {
        0int
    } else {
        closed[i - 1].1.end as int
    }) && closed[i].1.start <= closed[i].1.end <= n as int by {
        assert(closed[i].1.start == batches[i].1.start);
    }
}

/// Relies on `Vec::capacity`: the capacity is at least the length.
#[verifier::external_body]
pub(crate) fn vec_capacity<T>(v: &Vec<T>) -> (r: usize)
    ensures
        r >= v@.len(),
{
    v.capacity()
}

/// Relies on `Vec::reserve_exact`: reserves room for `additional` more
/// elements; the contents are unchanged.
#[verifier::external_body]
fn vec_reserve_exact<T>(v: &mut Vec<T>, additional: usize)
    ensures
        final(v)@ == old(v)@,
{
    v.reserve_exact(additional)
}

} // verus!

