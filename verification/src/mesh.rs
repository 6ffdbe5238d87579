//! The topology of a mesh: triangles that name vertices by index.
use vstd::prelude::*;

verus! {

/// A face of a mesh: three indices into the mesh's vertex list.
#[derive(Clone, Copy, Debug)]
pub struct Triangle {
    pub indices: [usize; 3],
}

impl Triangle {
    /// Whether each of the three indices names one of `vertex_count` vertices.
    pub open spec fn fits(self, vertex_count: nat) -> bool {
        &&& self.indices@[0] < vertex_count
        &&& self.indices@[1] < vertex_count
        &&& self.indices@[2] < vertex_count
    }
}

/// Vertices of any kind, and triangles over them.
#[derive(Clone, Debug)]
pub struct Mesh<V> {
    pub vertices: Vec<V>,
    pub triangles: Vec<Triangle>,
}

impl<V: Copy> Mesh<V> {
    /// Whether every triangle names vertices of the mesh.
    pub open spec fn well_formed(&self) -> bool {
        forall|k: int|
            0 <= k < self.triangles@.len() ==> (#[trigger] self.triangles@[k]).fits(
                self.vertices@.len(),
            )
    }

    /// A mesh with no vertices and no triangles.
    pub fn new() -> (m: Self)
        ensures
            m.vertices@.len() == 0,
            m.triangles@.len() == 0,
            m.well_formed(),
    {
        Mesh { vertices: Vec::new(), triangles: Vec::new() }
    }

    /// The three vertices of triangle `k`, in the order of its indices;
    /// `None` where there is no triangle `k` or it names a vertex that the
    /// mesh lacks.
    pub fn triangle_vertices(&self, k: usize) -> (r: Option<(V, V, V)>)
        ensures
            r == (if k < self.triangles@.len() && self.triangles@[k as int].fits(
                self.vertices@.len(),
            ) {
                let t = self.triangles@[k as int];
                Some(
                    (
                        self.vertices@[t.indices@[0] as int],
                        self.vertices@[t.indices@[1] as int],
                        self.vertices@[t.indices@[2] as int],
                    ),
                )
            } else {
                None
            }),
    {
        if k >= self.triangles.len() {
            return None;
        }
        let t = self.triangles[k];
        let n = self.vertices.len();
        if t.indices[0] < n && t.indices[1] < n && t.indices[2] < n {
            Some(
                (
                    self.vertices[t.indices[0]],
                    self.vertices[t.indices[1]],
                    self.vertices[t.indices[2]],
                ),
            )
        } else {
            None
        }
    }
}

} // verus!
