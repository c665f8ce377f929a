//! A rectangular grid of tile identifiers with row-major addressing and
//! filtered emission of tile instances.

use vstd::prelude::*;
use std::collections::HashSet;

verus! {

broadcast use vstd::std_specs::hash::group_hash_axioms;

/// One tile to draw: its identifier and its grid location.
#[derive(Debug, Clone, Copy, PartialEq, Eq)]
pub struct TileInstance {
    pub id: usize,
    pub location: (usize, usize),
}

/// Whether a tile identifier passes the include/exclude filters: an
/// empty include set admits everything, an empty exclude set rejects
/// nothing.
pub open spec fn spec_tile_passes(id: usize, included: Set<usize>, excluded: Set<usize>) -> bool {
    (included.is_empty() || included.contains(id)) && !(!excluded.is_empty() && excluded.contains(id))
}

/// The instances emitted from the first `k` cells of `buffer`, in cell
/// order, keeping only identifiers that pass the filters.
pub open spec fn spec_emit_prefix(
    buffer: Seq<usize>,
    width: int,
    included: Set<usize>,
    excluded: Set<usize>,
    k: int,
) -> Seq<TileInstance>
    decreases k,
{
    if k <= 0 {
        Seq::empty()
    } else {
        let rest = spec_emit_prefix(buffer, width, included, excluded, k - 1);
        let id = buffer[k - 1];
        if spec_tile_passes(id, included, excluded) {
            rest.push(
                TileInstance {
                    id,
                    location: (((k - 1) % width) as usize, ((k - 1) / width) as usize),
                },
            )
        } else {
            rest
        }
    }
}

/// A grid of tile identifiers stored row-major: the cell at `(x, y)`
/// lives at linear index `y * width + x`.
#[derive(Debug)]
pub struct TileMap {
    pub include_ids: HashSet<usize>,
    pub exclude_ids: HashSet<usize>,
    width: usize,
    height: usize,
    buffer: Vec<usize>,
}

impl TileMap {
    /// The grid width.
    pub closed spec fn spec_width(&self) -> int {
        self.width as int
    }

    /// The grid height.
    pub closed spec fn spec_height(&self) -> int {
        self.height as int
    }

    /// The row-major cell contents.
    pub closed spec fn spec_buffer(&self) -> Seq<usize> {
        self.buffer@
    }

    /// The include filter contents.
    pub closed spec fn spec_include(&self) -> Set<usize> {
        self.include_ids@
    }

    /// The exclude filter contents.
    pub closed spec fn spec_exclude(&self) -> Set<usize> {
        self.exclude_ids@
    }

    /// The buffer holds exactly one identifier per cell.
    pub closed spec fn wf(&self) -> bool {
        self.buffer@.len() == self.spec_width() * self.spec_height()
    }

    /// A grid of the given size with every cell set to `fill_id` and no
    /// filters.
    pub fn new(size: (usize, usize), fill_id: usize) -> (r: Self)
        requires
            size.0 * size.1 <= usize::MAX,
        ensures
            r.wf(),
            r.spec_width() == size.0,
            r.spec_height() == size.1,
            forall|k: int| 0 <= k < r.spec_buffer().len() ==> r.spec_buffer()[k] == fill_id,
            r.spec_include() == Set::<usize>::empty(),
            r.spec_exclude() == Set::<usize>::empty(),
    {
        let count = size.0 * size.1;
        let mut buffer: Vec<usize> = Vec::with_capacity(count);
        let mut k: usize = 0;
        while k < count
            invariant
                k <= count,
                buffer@.len() == k,
                forall|j: int| 0 <= j < k ==> buffer@[j] == fill_id,
            decreases count - k,
        {
            buffer.push(fill_id);
            k += 1;
        }
        Self {
            include_ids: HashSet::new(),
            exclude_ids: HashSet::new(),
            width: size.0,
            height: size.1,
            buffer,
        }
    }

    /// Adopts an existing row-major buffer, or `None` exactly when its
    /// length does not match the size.
    pub fn with_buffer(size: (usize, usize), buffer: Vec<usize>) -> (r: Option<Self>)
        requires
            size.0 * size.1 <= usize::MAX,
        ensures
            buffer@.len() == size.0 * size.1 ==> (r matches Some(m) && m.wf() && m.spec_width()
                == size.0 && m.spec_height() == size.1 && m.spec_buffer() == buffer@
                && m.spec_include() == Set::<usize>::empty() && m.spec_exclude() == Set::<
                usize,
            >::empty()),
            buffer@.len() != size.0 * size.1 ==> r is None,
    {
        if buffer.len() == size.0 * size.1 {
            Some(
                Self {
                    include_ids: HashSet::new(),
                    exclude_ids: HashSet::new(),
                    width: size.0,
                    height: size.1,
                    buffer,
                },
            )
        } else {
            None
        }
    }

    /// The grid size.
    pub fn size(&self) -> (r: (usize, usize))
        ensures
            r.0 == self.spec_width(),
            r.1 == self.spec_height(),
    {
        (self.width, self.height)
    }

    /// The row-major cell contents.
    pub fn buffer(&self) -> (r: &[usize])
        ensures
            r@ == self.spec_buffer(),
    {
        self.buffer.as_slice()
    }

    /// The linear index of a grid location: `y * width + x`.
    pub fn index(&self, location: (usize, usize)) -> (r: usize)
        requires
            location.1 * self.spec_width() + location.0 <= usize::MAX,
        ensures
            r == location.1 * self.spec_width() + location.0,
    {
        location.1 * self.width + location.0
    }

    /// The grid location of a linear index: `(index % width, index /
    /// width)`.
    pub fn location(&self, index: usize) -> (r: (usize, usize))
        requires
            self.spec_width() > 0,
        ensures
            r.0 == index as int % self.spec_width(),
            r.1 == index as int / self.spec_width(),
    {
        (index % self.width, index / self.width)
    }

    /// The identifier at a grid location, or `None` exactly when the
    /// location's linear index falls outside the buffer.
    pub fn get(&self, location: (usize, usize)) -> (r: Option<usize>)
        requires
            location.1 * self.spec_width() + location.0 <= usize::MAX,
        ensures
            location.1 * self.spec_width() + location.0 < self.spec_buffer().len() ==> r == Some(
                self.spec_buffer()[location.1 * self.spec_width() + location.0],
            ),
            location.1 * self.spec_width() + location.0 >= self.spec_buffer().len() ==> r is None,
    {
        let index = self.index(location);
        if index < self.buffer.len() {
            Some(self.buffer[index])
        } else {
            None
        }
    }

    /// Writes an identifier at a grid location; out-of-buffer locations
    /// are ignored.
    pub fn set(&mut self, location: (usize, usize), id: usize)
        requires
            location.1 * old(self).spec_width() + location.0 <= usize::MAX,
        ensures
            final(self).spec_width() == old(self).spec_width(),
            final(self).spec_height() == old(self).spec_height(),
            final(self).spec_include() == old(self).spec_include(),
            final(self).spec_exclude() == old(self).spec_exclude(),
            location.1 * old(self).spec_width() + location.0 < old(self).spec_buffer().len()
                ==> final(self).spec_buffer() == old(self).spec_buffer().update(
                location.1 * old(self).spec_width() + location.0,
                id,
            ),
            location.1 * old(self).spec_width() + location.0 >= old(self).spec_buffer().len()
                ==> final(self).spec_buffer() == old(self).spec_buffer(),
    {
        let index = self.index(location);
        if index < self.buffer.len() {
            self.buffer[index] = id;
        }
    }

    /// Writes `id` into every cell of the half-open rectangle spanned
    /// by `from` (inclusive) and `to` (exclusive).
    pub fn fill(&mut self, from: (usize, usize), to: (usize, usize), id: usize)
        requires
            old(self).wf(),
            to.0 <= old(self).spec_width(),
            to.1 <= old(self).spec_height(),
        ensures
            final(self).wf(),
            final(self).spec_width() == old(self).spec_width(),
            final(self).spec_height() == old(self).spec_height(),
            final(self).spec_include() == old(self).spec_include(),
            final(self).spec_exclude() == old(self).spec_exclude(),
            final(self).spec_buffer().len() == old(self).spec_buffer().len(),
            forall|k: int|
                0 <= k < old(self).spec_buffer().len() ==> final(self).spec_buffer()[k] == (
                if from.0 <= k % old(self).spec_width() < to.0 && from.1 <= k / old(
                    self,
                ).spec_width() < to.1 {
                    id
                } else {
                    old(self).spec_buffer()[k]
                }),
    {
        let width = self.width;
        let mut y: usize = from.1;
        while y < to.1
            invariant
                from.1 <= y <= to.1 || (to.1 < from.1 && y == from.1),
                to.0 <= width,
                to.1 <= old(self).spec_height(),
                width == old(self).spec_width(),
                self.wf(),
                self.spec_width() == old(self).spec_width(),
                self.spec_height() == old(self).spec_height(),
                self.spec_include() == old(self).spec_include(),
                self.spec_exclude() == old(self).spec_exclude(),
                self.spec_buffer().len() == old(self).spec_buffer().len(),
                forall|k: int|
                    0 <= k < old(self).spec_buffer().len() ==> self.spec_buffer()[k] == (
                    if from.0 <= k % (width as int) < to.0 && from.1 <= k / (width as int) < y {
                        id
                    } else {
                        old(self).spec_buffer()[k]
                    }),
            decreases to.1 - y,
        {
            let mut x: usize = from.0;
            while x < to.0
                invariant
                    from.0 <= x <= to.0 || (to.0 < from.0 && x == from.0),
                    from.1 <= y < to.1,
                    to.0 <= width,
                    to.1 <= old(self).spec_height(),
                    width == old(self).spec_width(),
                    self.wf(),
                    self.spec_width() == old(self).spec_width(),
                    self.spec_height() == old(self).spec_height(),
                    self.spec_include() == old(self).spec_include(),
                    self.spec_exclude() == old(self).spec_exclude(),
                    self.spec_buffer().len() == old(self).spec_buffer().len(),
                    forall|k: int|
                        0 <= k < old(self).spec_buffer().len() ==> self.spec_buffer()[k] == (
                        if from.0 <= k % (width as int) < to.0 && from.1 <= k / (width as int) < y {
                            id
                        } else if k / (width as int) == y && from.0 <= k % (width as int) < x {
                            id
                        } else {
                            old(self).spec_buffer()[k]
                        }),
                decreases to.0 - x,
            {
                let cells = self.buffer.len();
                proof {
                    assert((y as int) * (width as int) + (x as int) < (width as int)
                        * self.spec_height()) by (nonlinear_arith)
                        requires
                            0 <= y as int,
                            0 <= x as int,
                            (x as int) < (width as int),
                            (y as int) < self.spec_height(),
                    ;
                    assert(cells == (width as int) * self.spec_height());
                }
                let index = y * width + x;
                let ghost prev = self.spec_buffer();
                self.buffer[index] = id;
                proof {
                    vstd::arithmetic::div_mod::lemma_fundamental_div_mod_converse(
                        index as int,
                        width as int,
                        y as int,
                        x as int,
                    );
                    assert forall|k: int|
                        0 <= k < old(self).spec_buffer().len() implies self.spec_buffer()[k] == (
                    if from.0 <= k % (width as int) < to.0 && from.1 <= k / (width as int) < y {
                        id
                    } else if k / (width as int) == y && from.0 <= k % (width as int) < x + 1 {
                        id
                    } else {
                        old(self).spec_buffer()[k]
                    }) by {
                        vstd::arithmetic::div_mod::lemma_fundamental_div_mod(k, width as int);
                        if k != index as int && k / (width as int) == y as int && k % (width
                            as int) == x as int {
                            assert(k == (width as int) * (k / (width as int)) + k % (width
                                as int));
                            assert((width as int) * (y as int) == (y as int) * (width as int))
                                by (nonlinear_arith);
                            assert(false);
                        }
                    }
                }
                x += 1;
            }
            y += 1;
        }
    }

    /// The instances of every cell whose identifier passes the
    /// include/exclude filters, in row-major cell order.
    pub fn emit(&self) -> (r: Vec<TileInstance>)
        requires
            self.wf(),
        ensures
            r@ == spec_emit_prefix(
                self.spec_buffer(),
                self.spec_width(),
                self.spec_include(),
                self.spec_exclude(),
                self.spec_buffer().len() as int,
            ),
    {
        let mut result: Vec<TileInstance> = Vec::new();
        let n = self.buffer.len();
        let keep_all = self.include_ids.is_empty();
        let drop_none = self.exclude_ids.is_empty();
        let mut k: usize = 0;
        while k < n
            invariant
                k <= n,
                n == self.spec_buffer().len(),
                self.wf(),
                keep_all == self.spec_include().is_empty(),
                drop_none == self.spec_exclude().is_empty(),
                result@ == spec_emit_prefix(
                    self.spec_buffer(),
                    self.spec_width(),
                    self.spec_include(),
                    self.spec_exclude(),
                    k as int,
                ),
            decreases n - k,
        {
            let id = self.buffer[k];
            let keep = (keep_all || self.include_ids.contains(&id)) && !(!drop_none
                && self.exclude_ids.contains(&id));
            proof {
                assert(keep == spec_tile_passes(id, self.spec_include(), self.spec_exclude()));
            }
            if keep {
                proof {
                    if self.spec_width() <= 0 {
                        vstd::arithmetic::mul::lemma_mul_basics(self.spec_height());
                        assert(self.spec_buffer().len() == 0);
                    }
                }
                let x = k % self.width;
                let y = k / self.width;
                result.push(TileInstance { id, location: (x, y) });
            }
            k += 1;
        }
        result
    }
}

} // verus!
