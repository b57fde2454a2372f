//! Batching of geometry for a render driver: quads collected into one
//! vertex and index buffer, and long element lists split into chunks that
//! fit a vertex buffer.

use vstd::prelude::*;

verus! {

/// The most vertices a quad batch holds.
pub const MAX_VERTEX_COUNT: usize = 65536;

/// The most indices a quad batch holds.
pub const MAX_INDEX_COUNT: usize = 65536;

/// The indices of the two triangles of a quad whose first vertex is `base`:
/// `0 1 2` and `2 3 0`.
pub open spec fn quad_indices(base: int) -> Seq<u16> {
    seq![base as u16, (base + 1) as u16, (base + 2) as u16, (base + 2) as u16, (base + 3) as u16, base as u16]
}

/// Quads collected for one draw call: four vertices and six 16-bit
/// indices per quad.
pub struct QuadBatch<V> {
    vertices: Vec<V>,
    indices: Vec<u16>,
}

impl<V: Copy> QuadBatch<V> {
    /// The vertices collected so far.
    pub closed spec fn verts(&self) -> Seq<V> {
        self.vertices@
    }

    /// The indices collected so far.
    pub closed spec fn idx(&self) -> Seq<u16> {
        self.indices@
    }

    /// Every quad has its four vertices and six indices, and every index
    /// names a vertex of the batch.
    pub open spec fn wf(&self) -> bool {
        &&& self.verts().len() % 4 == 0
        &&& self.idx().len() == self.verts().len() / 4 * 6
        &&& self.verts().len() <= MAX_VERTEX_COUNT
        &&& forall|i: int| 0 <= i < self.idx().len() ==> (#[trigger] self.idx()[i]) < self.verts().len()
    }

    pub fn new() -> (b: Self)
        ensures
            b.wf(),
            b.verts().len() == 0,
            b.idx().len() == 0,
    {
        QuadBatch { vertices: Vec::new(), indices: Vec::new() }
    }

    /// Whether the batch must be drawn and emptied before another quad fits.
    pub fn needs_flush(&self) -> (b: bool)
        ensures
            b == (self.verts().len() + 4 >= MAX_VERTEX_COUNT || self.idx().len() + 6 >= MAX_INDEX_COUNT),
    {
        self.vertices.len() >= MAX_VERTEX_COUNT - 4 || self.indices.len() >= MAX_INDEX_COUNT - 6
    }

    /// Adds the quad `v0 v1 v2 v3` as the triangles `v0 v1 v2` and `v2 v3 v0`.
    pub fn push_quad(&mut self, v0: &V, v1: &V, v2: &V, v3: &V)
        requires
            old(self).wf(),
            old(self).verts().len() + 4 < MAX_VERTEX_COUNT,
            old(self).idx().len() + 6 < MAX_INDEX_COUNT,
        ensures
            final(self).wf(),
            final(self).verts() == old(self).verts() + seq![*v0, *v1, *v2, *v3],
            final(self).idx() == old(self).idx() + quad_indices(old(self).verts().len() as int),
    {
        let is = self.vertices.len() as u16;
        let ghost n = self.vertices@.len();
        self.indices.push(is);
        self.indices.push(is + 1);
        self.indices.push(is + 2);
        self.indices.push(is + 2);
        self.indices.push(is + 3);
        self.indices.push(is);
        self.vertices.push(*v0);
        self.vertices.push(*v1);
        self.vertices.push(*v2);
        self.vertices.push(*v3);
        proof {
            assert(self.vertices@ =~= old(self).vertices@ + seq![*v0, *v1, *v2, *v3]);
            assert(self.indices@ =~= old(self).indices@ + quad_indices(n as int));
            assert forall|i: int| 0 <= i < self.idx().len() implies (#[trigger] self.idx()[i]) < self.verts().len() by {
                if i < old(self).indices@.len() {
                    assert(self.indices@[i] == old(self).indices@[i]);
                }
            }
        }
    }

    /// Empties the batch once it is drawn.
    pub fn clear(&mut self)
        ensures
            final(self).wf(),
            final(self).verts().len() == 0,
            final(self).idx().len() == 0,
    {
        self.vertices.clear();
        self.indices.clear();
    }

    pub fn vertices(&self) -> (v: &Vec<V>)
        ensures
            v@ == self.verts(),
    {
        &self.vertices
    }

    pub fn indices(&self) -> (v: &Vec<u16>)
        ensures
            v@ == self.idx(),
    {
        &self.indices
    }
}

/// `r` splits `len` elements into chunks of at most `chunk_size`, in order:
/// each chunk starts where the last ended, takes as many as are left up to
/// `chunk_size`, and the chunks end at `len`.
pub open spec fn is_chunking(r: Seq<(usize, usize)>, len: nat, chunk_size: nat) -> bool {
    &&& (r.len() == 0 <==> len == 0)
    &&& r.len() > 0 ==> r[0].0 == 0
    &&& forall|k: int| 0 <= k < r.len() ==> {
        &&& (#[trigger] r[k]).0 + r[k].1 <= len
        &&& r[k].1 == (if len - r[k].0 < chunk_size { len - r[k].0 } else { chunk_size as int })
        &&& r[k].1 > 0
    }
    &&& forall|k: int| 0 <= k < r.len() - 1 ==> (#[trigger] r[k + 1]).0 == r[k].0 + r[k].1
    &&& r.len() > 0 ==> r.last().0 + r.last().1 == len
}

/// The chunks that `len` elements are drawn in, `chunk_size` at a time:
/// the first element and the count of each, in order.
pub fn chunk_ranges(len: usize, chunk_size: usize) -> (r: Vec<(usize, usize)>)
    requires
        chunk_size > 0 || len == 0,
    ensures
        is_chunking(r@, len as nat, chunk_size as nat),
{
    let mut r: Vec<(usize, usize)> = Vec::new();
    let mut start: usize = 0;
    while start < len
        invariant
            start <= len,
            chunk_size > 0 || len == 0,
            r@.len() == 0 <==> start == 0,
            r@.len() > 0 ==> r@[0].0 == 0,
            r@.len() > 0 ==> r@.last().0 + r@.last().1 == start,
            forall|k: int| 0 <= k < r@.len() ==> {
                &&& (#[trigger] r@[k]).0 + r@[k].1 <= start
                &&& r@[k].1 == (if len - r@[k].0 < chunk_size { len - r@[k].0 } else { chunk_size as int })
                &&& r@[k].1 > 0
            },
            forall|k: int| 0 <= k < r@.len() - 1 ==> (#[trigger] r@[k + 1]).0 == r@[k].0 + r@[k].1,
        decreases len - start,
    {
        let count = if len - start < chunk_size { len - start } else { chunk_size };
        let ghost old_r = r@;
        r.push((start, count));
        proof {
            assert forall|k: int| 0 <= k < r@.len() - 1 implies (#[trigger] r@[k + 1]).0 == r@[k].0 + r@[k].1 by {
                if k + 1 < old_r.len() {
                    assert(r@[k + 1] == old_r[k + 1]);
                    assert(r@[k] == old_r[k]);
                } else {
                    assert(r@[k] == old_r.last());
                }
            }
        }
        start = start + count;
    }
    r
}

} // verus!
