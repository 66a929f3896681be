//! Geometry: vertex positions, normals and triangles.
use vstd::prelude::*;

verus! {

/// Vertex positions of type `P`, normals of type `N`, triangles as triples of
/// vertex indices, and whether the geometry is expected to change.
#[derive(Clone)]
pub struct Geometry<P, N> {
    pub vertices: Vec<P>,
    pub normals: Vec<N>,
    pub faces: Vec<[u16; 3]>,
    pub is_dynamic: bool,
}

impl<P, N> Geometry<P, N> {
    /// Empty, static geometry.
    pub fn new() -> (g: Self)
        ensures
            g.vertices@ == Seq::<P>::empty(),
            g.normals@ == Seq::<N>::empty(),
            g.faces@ == Seq::<[u16; 3]>::empty(),
            !g.is_dynamic,
    {
        Geometry { vertices: Vec::new(), normals: Vec::new(), faces: Vec::new(), is_dynamic: false }
    }

    /// Static geometry with the given vertices and nothing else.
    pub fn from_vertices(verts: Vec<P>) -> (g: Self)
        ensures
            g.vertices@ == verts@,
            g.normals@ == Seq::<N>::empty(),
            g.faces@ == Seq::<[u16; 3]>::empty(),
            !g.is_dynamic,
    {
        let base = Geometry::new();
        Geometry { vertices: verts, ..base }
    }
}

} // verus!
