use vstd::prelude::*;

verus! {

/// A triangle mesh: the vertex indices of its triangles, three per triangle.
/// Vertex positions, normals and texture coordinates are kept alongside the
/// mesh by its owner.
pub struct Mesh {
    pub vertex_indices: Vec<usize>,
}

/// A triangle of a mesh, identified by its position in the mesh.
#[derive(Clone, Copy)]
pub struct Triangle<'msh> {
    pub mesh: &'msh Mesh,
    pub index_in_mesh: usize,
}

/// A geometric shape that rays can hit.
#[derive(Clone, Copy)]
pub enum Shape<'msh> {
    Triangle(Triangle<'msh>),
}

impl Mesh {
    /// The number of whole triangles in the mesh.
    pub open spec fn triangle_count(&self) -> nat {
        self.vertex_indices@.len() / 3
    }

    /// Returns the triangle at position `index_in_mesh` of the mesh.
    pub fn triangle_at(&self, index_in_mesh: usize) -> (t: Triangle)
        ensures
            t.mesh == self,
            t.index_in_mesh == index_in_mesh,
    {
        Triangle { mesh: self, index_in_mesh }
    }

    /// Returns every triangle of the mesh, in order.
    pub fn triangles(&self) -> (ts: Vec<Triangle>)
        ensures
            ts.len() == self.triangle_count(),
            forall|i: int|
                0 <= i < ts.len() ==> (#[trigger] ts@[i]).mesh == self && ts@[i].index_in_mesh
                    == i,
    {
        let count = self.vertex_indices.len() / 3;
        let mut ts: Vec<Triangle> = Vec::new();
        let mut i: usize = 0;
        while i < count
            invariant
                count == self.triangle_count(),
                i <= count,
                ts.len() == i,
                forall|j: int|
                    0 <= j < i ==> (#[trigger] ts@[j]).mesh == self && ts@[j].index_in_mesh == j,
            decreases count - i,
        {
            ts.push(self.triangle_at(i));
            i = i + 1;
        }
        ts
    }
}

impl<'msh> Triangle<'msh> {
    /// The indices of the triangle's three vertices.
    pub fn vertex_indices(&self) -> (v: (usize, usize, usize))
        requires
            self.index_in_mesh < self.mesh.triangle_count(),
        ensures
            v.0 == self.mesh.vertex_indices@[3 * self.index_in_mesh],
            v.1 == self.mesh.vertex_indices@[3 * self.index_in_mesh + 1],
            v.2 == self.mesh.vertex_indices@[3 * self.index_in_mesh + 2],
    {
        let len = self.mesh.vertex_indices.len();
        proof {
            let n = self.mesh.vertex_indices@.len() as int;
            assert(n == len);
            let i = self.index_in_mesh as int;
            assert(3 * i + 2 < n) by (nonlinear_arith)
                requires
                    i < n / 3,
                    0 <= n,
            ;
        }
        let first = 3 * self.index_in_mesh;
        (
            self.mesh.vertex_indices[first],
            self.mesh.vertex_indices[first + 1],
            self.mesh.vertex_indices[first + 2],
        )
    }
}

impl<'msh> Shape<'msh> {
    /// Returns the shape made of the triangle at position `index_in_mesh` of
    /// the mesh.
    pub fn triangle(mesh: &'msh Mesh, index_in_mesh: usize) -> (s: Self)
        ensures
            s == Shape::Triangle(Triangle { mesh, index_in_mesh }),
    {
        Self::Triangle(mesh.triangle_at(index_in_mesh))
    }
}

} // verus!
