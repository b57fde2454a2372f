//! Scene building blocks: how a 3D view is navigated, and the colored
//! segments, triangles and quads that utility meshes are made of, over any
//! vertex position type.

use vstd::prelude::*;
use crate::geometry::Color4b;

verus! {

/// What dragging the pointer does to a 3D view.
#[derive(Debug, Clone, Copy, PartialEq, Eq, Structural)]
pub enum NavigationMode {
    Pan,
    Rotate,
    Zoom,
}

/// A vertex of a utility mesh: a position and a color.
#[derive(Clone, Copy)]
pub struct Vertex<V> {
    pub position: V,
    pub color: Color4b,
}

/// The vertex at `position` in `color`.
pub open spec fn vertex<V>(position: V, color: Color4b) -> Vertex<V> {
    Vertex { position, color }
}

/// `s` with every vertex recolored to `color`.
pub open spec fn recolored<V>(s: Seq<Vertex<V>>, color: Color4b) -> Seq<Vertex<V>> {
    s.map_values(|v: Vertex<V>| Vertex { color, ..v })
}

/// A line segment between two vertices.
#[derive(Clone, Copy)]
pub struct Segment<V> {
    verts: [Vertex<V>; 2],
}

impl<V: Copy> Segment<V> {
    /// The vertex `idx` as it is stored, position and color.
    pub fn vertex_at(&self, idx: usize) -> (v: &Vertex<V>)
        requires
            idx < 2,
        ensures
            *v == self.vertices()[idx as int],
    {
        &self.verts[idx]
    }

    /// The vertices of the segment, start first.
    pub closed spec fn vertices(&self) -> Seq<Vertex<V>> {
        self.verts@
    }

    /// It has 2 vertices.
    pub proof fn lemma_vertex_count(&self)
        ensures
            self.vertices().len() == 2,
    {
    }

    pub fn new(start: &V, end: &V, color: &Color4b) -> (s: Self)
        ensures
            s.vertices() == seq![vertex(*start, *color), vertex(*end, *color)],
    {
        let s = Segment { verts: [Vertex { position: *start, color: *color }, Vertex { position: *end, color: *color }] };
        assert(s.verts@ =~= seq![vertex(*start, *color), vertex(*end, *color)]);
        s
    }

    pub fn start(&self) -> (p: &V)
        ensures
            *p == self.vertices()[0].position,
    {
        &self.verts[0].position
    }

    pub fn end(&self) -> (p: &V)
        ensures
            *p == self.vertices()[1].position,
    {
        &self.verts[1].position
    }

    /// The segment in `color`.
    pub fn with_color(self, color: &Color4b) -> (s: Self)
        ensures
            s.vertices() == recolored(self.vertices(), *color),
    {
        let a = self.verts[0];
        let b = self.verts[1];
        let s = Segment { verts: [Vertex { position: a.position, color: *color }, Vertex { position: b.position, color: *color }] };
        assert(s.verts@ =~= recolored(self.verts@, *color));
        s
    }
}

/// A triangle of three vertices.
#[derive(Clone, Copy)]
pub struct Triangle<V> {
    verts: [Vertex<V>; 3],
}

impl<V: Copy> Triangle<V> {
    /// The vertex `idx` as it is stored, position and color.
    pub fn vertex_at(&self, idx: usize) -> (v: &Vertex<V>)
        requires
            idx < 3,
        ensures
            *v == self.vertices()[idx as int],
    {
        &self.verts[idx]
    }

    /// The vertices of the triangle, in order.
    pub closed spec fn vertices(&self) -> Seq<Vertex<V>> {
        self.verts@
    }

    /// It has 3 vertices.
    pub proof fn lemma_vertex_count(&self)
        ensures
            self.vertices().len() == 3,
    {
    }

    pub fn new(v0: &V, v1: &V, v2: &V, color: &Color4b) -> (t: Self)
        ensures
            t.vertices() == seq![vertex(*v0, *color), vertex(*v1, *color), vertex(*v2, *color)],
    {
        let t = Triangle {
            verts: [
                Vertex { position: *v0, color: *color },
                Vertex { position: *v1, color: *color },
                Vertex { position: *v2, color: *color },
            ],
        };
        assert(t.verts@ =~= seq![vertex(*v0, *color), vertex(*v1, *color), vertex(*v2, *color)]);
        t
    }

    pub fn v0(&self) -> (p: &V)
        ensures
            *p == self.vertices()[0].position,
    {
        &self.verts[0].position
    }

    pub fn v1(&self) -> (p: &V)
        ensures
            *p == self.vertices()[1].position,
    {
        &self.verts[1].position
    }

    pub fn v2(&self) -> (p: &V)
        ensures
            *p == self.vertices()[2].position,
    {
        &self.verts[2].position
    }

    /// The triangle in `color`.
    pub fn with_color(self, color: &Color4b) -> (t: Self)
        ensures
            t.vertices() == recolored(self.vertices(), *color),
    {
        let a = self.verts[0];
        let b = self.verts[1];
        let c = self.verts[2];
        let t = Triangle {
            verts: [
                Vertex { position: a.position, color: *color },
                Vertex { position: b.position, color: *color },
                Vertex { position: c.position, color: *color },
            ],
        };
        assert(t.verts@ =~= recolored(self.verts@, *color));
        t
    }
}

/// A quad `v0 v1 v2 v3`, held as the two triangles `v0 v1 v2` and `v2 v3 v0`.
#[derive(Clone, Copy)]
pub struct Quad<V> {
    verts: [Vertex<V>; 6],
}

impl<V: Copy> Quad<V> {
    /// The vertex `idx` as it is stored, position and color.
    pub fn vertex_at(&self, idx: usize) -> (v: &Vertex<V>)
        requires
            idx < 6,
        ensures
            *v == self.vertices()[idx as int],
    {
        &self.verts[idx]
    }

    /// The vertices of the quad's two triangles, in order.
    pub closed spec fn vertices(&self) -> Seq<Vertex<V>> {
        self.verts@
    }

    /// It has 6 vertices.
    pub proof fn lemma_vertex_count(&self)
        ensures
            self.vertices().len() == 6,
    {
    }

    pub fn new(v0: &V, v1: &V, v2: &V, v3: &V, color: &Color4b) -> (q: Self)
        ensures
            q.vertices() == seq![
                vertex(*v0, *color), vertex(*v1, *color), vertex(*v2, *color),
                vertex(*v2, *color), vertex(*v3, *color), vertex(*v0, *color)
            ],
    {
        let q = Quad {
            verts: [
                Vertex { position: *v0, color: *color },
                Vertex { position: *v1, color: *color },
                Vertex { position: *v2, color: *color },
                Vertex { position: *v2, color: *color },
                Vertex { position: *v3, color: *color },
                Vertex { position: *v0, color: *color },
            ],
        };
        assert(q.verts@ =~= seq![
            vertex(*v0, *color), vertex(*v1, *color), vertex(*v2, *color),
            vertex(*v2, *color), vertex(*v3, *color), vertex(*v0, *color)
        ]);
        q
    }

    pub fn v0(&self) -> (p: &V)
        ensures
            *p == self.vertices()[0].position,
    {
        &self.verts[0].position
    }

    pub fn v1(&self) -> (p: &V)
        ensures
            *p == self.vertices()[1].position,
    {
        &self.verts[1].position
    }

    pub fn v2(&self) -> (p: &V)
        ensures
            *p == self.vertices()[2].position,
    {
        &self.verts[2].position
    }

    /// The fourth corner, the second vertex of the second triangle.
    pub fn v3(&self) -> (p: &V)
        ensures
            *p == self.vertices()[4].position,
    {
        &self.verts[4].position
    }

    /// The quad in `color`.
    pub fn with_color(self, color: &Color4b) -> (q: Self)
        ensures
            q.vertices() == recolored(self.vertices(), *color),
    {
        let a = self.verts[0];
        let b = self.verts[1];
        let c = self.verts[2];
        let d = self.verts[3];
        let e = self.verts[4];
        let f = self.verts[5];
        let q = Quad {
            verts: [
                Vertex { position: a.position, color: *color },
                Vertex { position: b.position, color: *color },
                Vertex { position: c.position, color: *color },
                Vertex { position: d.position, color: *color },
                Vertex { position: e.position, color: *color },
                Vertex { position: f.position, color: *color },
            ],
        };
        assert(q.verts@ =~= recolored(self.verts@, *color));
        q
    }
}

/// A utility mesh: segments, triangles, quads, or an assembly of meshes.
pub enum UMNode<V> {
    Segments(Vec<Segment<V>>),
    Tris(Vec<Triangle<V>>),
    Quads(Vec<Quad<V>>),
    Assembly(Vec<UMNode<V>>),
}

/// The corners a quad's accessors give back are the corners it was made of.
pub proof fn lemma_quad_corners<V>(v0: V, v1: V, v2: V, v3: V, color: Color4b)
    ensures
        ({
            let s = seq![
                vertex(v0, color), vertex(v1, color), vertex(v2, color),
                vertex(v2, color), vertex(v3, color), vertex(v0, color)
            ];
            s[0].position == v0 && s[1].position == v1 && s[2].position == v2 && s[4].position == v3
        }),
{
}

/// Recoloring keeps every position and gives every vertex the new color.
pub proof fn lemma_recolor_keeps_positions<V>(s: Seq<Vertex<V>>, color: Color4b)
    ensures
        recolored(s, color).len() == s.len(),
        forall|i: int| 0 <= i < s.len() ==> #[trigger] recolored(s, color)[i].position == s[i].position
            && recolored(s, color)[i].color == color,
{
}

} // verus!
