//! Triangle meshes.
//!
//! Geometry reaches the acoustic scene as triangle lists: vertices, and
//! indices into them in groups of three. The vertex and material types are
//! the host's; nothing here looks inside them.

use vstd::prelude::*;

verus! {

/// What a host mesh offers: whether it is a triangle list, its vertex
/// positions where it has them as three floats each, and its indices where
/// it has any.
pub struct MeshData<V> {
    pub triangle_list: bool,
    pub positions: Option<Vec<V>>,
    pub indices: Option<Vec<u32>>,
}

/// Why a host mesh cannot become acoustic geometry.
#[derive(Clone, Copy, Debug, PartialEq, Eq, Structural)]
pub enum MeshError {
    /// The mesh is not a triangle list.
    NotTriangleList,
    /// The mesh has no positions of three floats each.
    NoPositions,
    /// The mesh has no indices.
    NoIndices,
}

impl MeshError {
    /// The error in words.
    pub fn message(&self) -> (text: &'static str)
        ensures
            text@ == match *self {
                MeshError::NotTriangleList => "Mesh is not a triangle list"@,
                MeshError::NoPositions => "Mesh has no position attribute"@,
                MeshError::NoIndices => "Mesh has no indices"@,
            },
    {
        match self {
            MeshError::NotTriangleList => "Mesh is not a triangle list",
            MeshError::NoPositions => "Mesh has no position attribute",
            MeshError::NoIndices => "Mesh has no indices",
        }
    }
}

/// What `mesh` lacks to become acoustic geometry, if anything: the first of
/// the topology, the positions and the indices that is not as it must be.
pub open spec fn mesh_defect<V>(mesh: MeshData<V>) -> Option<MeshError> {
    if !mesh.triangle_list {
        Some(MeshError::NotTriangleList)
    } else if mesh.positions is None {
        Some(MeshError::NoPositions)
    } else if mesh.indices is None {
        Some(MeshError::NoIndices)
    } else {
        None
    }
}

impl<V> MeshData<V> {
    /// The triangles of the mesh for the acoustic scene, or what the mesh
    /// lacks.
    pub fn acoustic_triangles(&self) -> (grouped: Result<Vec<[u32; 3]>, MeshError>)
        requires
            mesh_defect(*self) is None ==> self.indices->0@.len() % 3 == 0,
        ensures
            match grouped {
                Ok(grouped) => mesh_defect(*self) is None && grouped@ == triangles_of(self.indices->0@),
                Err(error) => mesh_defect(*self) == Some(error),
            },
    {
        if !self.triangle_list {
            return Err(MeshError::NotTriangleList);
        }
        if self.positions.is_none() {
            return Err(MeshError::NoPositions);
        }
        match &self.indices {
            Some(indices) => Ok(triangles(indices)),
            None => Err(MeshError::NoIndices),
        }
    }
}

/// The indices in groups of three: triangle `t` has the corners
/// `indices[3 * t]`, `indices[3 * t + 1]` and `indices[3 * t + 2]`. Indices
/// that do not fill a last group are left out.
pub open spec fn triangles_of(indices: Seq<u32>) -> Seq<[u32; 3]> {
    Seq::new(
        (indices.len() / 3) as nat,
        |t: int| [indices[3 * t], indices[3 * t + 1], indices[3 * t + 2]],
    )
}

/// Groups `indices` in threes.
pub fn triangles(indices: &Vec<u32>) -> (grouped: Vec<[u32; 3]>)
    ensures
        grouped@ == triangles_of(indices@),
{
    let len = indices.len();
    let count = len / 3;
    let mut grouped: Vec<[u32; 3]> = Vec::with_capacity(count);
    let mut t: usize = 0;
    while t < count
        invariant
            t <= count,
            len == indices@.len(),
            count == len / 3,
            3 * count <= len,
            grouped@.len() == t,
            forall|k: int| 0 <= k < t ==> #[trigger] grouped@[k] == triangles_of(indices@)[k],
        decreases count - t,
    {
        let triangle = [indices[3 * t], indices[3 * t + 1], indices[3 * t + 2]];
        grouped.push(triangle);
        t += 1;
    }
    assert(grouped@ =~= triangles_of(indices@));
    grouped
}

/// A triangle mesh with one material index per entry of `material_indices`.
pub struct TriMesh<V, M> {
    pub vertices: Vec<V>,
    pub indices: Vec<[u32; 3]>,
    pub material_indices: Vec<u32>,
    pub materials: Vec<M>,
}

impl<V: Copy, M: Copy> TriMesh<V, M> {
    /// Every corner of every triangle is a vertex of the mesh.
    pub open spec fn indexed(&self) -> bool {
        forall|t: int, k: int|
            0 <= t < self.indices@.len() && 0 <= k < 3 ==> (#[trigger] self.indices@[t][k])
                < self.vertices@.len()
    }

    /// Whether `other` can be added: the vertex count fits an index, and so
    /// does every index of `other` once it is moved behind what the mesh
    /// holds.
    pub open spec fn takes(&self, other: &Self) -> bool {
        &&& self.vertices@.len() <= u32::MAX
        &&& self.material_indices@.len() <= u32::MAX
        &&& forall|t: int, k: int|
            0 <= t < other.indices@.len() && 0 <= k < 3 ==> (#[trigger] other.indices@[t][k])
                + self.vertices@.len() <= u32::MAX
        &&& forall|i: int|
            0 <= i < other.material_indices@.len() ==> (#[trigger] other.material_indices@[i])
                + self.material_indices@.len() <= u32::MAX
    }

    /// The mesh without a vertex.
    pub fn new() -> (mesh: Self)
        ensures
            mesh.vertices@.len() == 0,
            mesh.indices@.len() == 0,
            mesh.material_indices@.len() == 0,
            mesh.materials@.len() == 0,
    {
        TriMesh { vertices: Vec::new(), indices: Vec::new(), material_indices: Vec::new(), materials: Vec::new() }
    }

    /// Adds the vertices, triangles and materials of `other`. The corners of
    /// its triangles are moved by the number of vertices that the mesh held,
    /// its material indices by the number of material indices that the mesh
    /// held.
    pub fn extend(&mut self, other: TriMesh<V, M>)
        requires
            old(self).takes(&other),
        ensures
            final(self).vertices@ == old(self).vertices@ + other.vertices@,
            final(self).materials@ == old(self).materials@ + other.materials@,
            final(self).indices@.len() == old(self).indices@.len() + other.indices@.len(),
            forall|t: int|
                0 <= t < old(self).indices@.len() ==> #[trigger] final(self).indices@[t] == old(
                    self,
                ).indices@[t],
            forall|t: int, k: int|
                0 <= t < other.indices@.len() && 0 <= k < 3 ==> (#[trigger] final(self).indices@[old(
                    self,
                ).indices@.len() + t][k]) == other.indices@[t][k] + old(self).vertices@.len(),
            final(self).material_indices@.len() == old(self).material_indices@.len()
                + other.material_indices@.len(),
            forall|i: int|
                0 <= i < old(self).material_indices@.len() ==> #[trigger] final(self).material_indices@[i]
                    == old(self).material_indices@[i],
            forall|i: int|
                0 <= i < other.material_indices@.len() ==> #[trigger] final(self).material_indices@[old(
                    self,
                ).material_indices@.len() + i] == other.material_indices@[i] + old(
                    self,
                ).material_indices@.len(),
            old(self).indexed() && other.indexed() ==> final(self).indexed(),
    {
        let ghost before = *self;
        let next_vertex_index = self.vertices.len() as u32;
        let next_material_index = self.material_indices.len() as u32;
        let mut v: usize = 0;
        while v < other.vertices.len()
            invariant
                v <= other.vertices@.len(),
                self.vertices@ == before.vertices@ + other.vertices@.subrange(0, v as int),
                self.indices == before.indices,
                self.material_indices == before.material_indices,
                self.materials == before.materials,
            decreases other.vertices@.len() - v,
        {
            self.vertices.push(other.vertices[v]);
            assert(self.vertices@ =~= before.vertices@ + other.vertices@.subrange(0, v + 1));
            v += 1;
        }
        assert(other.vertices@.subrange(0, other.vertices@.len() as int) =~= other.vertices@);
        let mut t: usize = 0;
        while t < other.indices.len()
            invariant
                t <= other.indices@.len(),
                before.takes(&other),
                next_vertex_index == before.vertices@.len(),
                self.vertices@ == before.vertices@ + other.vertices@,
                self.material_indices == before.material_indices,
                self.materials == before.materials,
                self.indices@.len() == before.indices@.len() + t,
                forall|s: int| 0 <= s < before.indices@.len() ==> #[trigger] self.indices@[s] == before.indices@[s],
                forall|s: int, k: int|
                    0 <= s < t && 0 <= k < 3 ==> (#[trigger] self.indices@[before.indices@.len() + s][k])
                        == other.indices@[s][k] + before.vertices@.len(),
            decreases other.indices@.len() - t,
        {
            let triangle = other.indices[t];
            assert(other.indices@[t as int][0] + before.vertices@.len() <= u32::MAX);
            assert(other.indices@[t as int][1] + before.vertices@.len() <= u32::MAX);
            assert(other.indices@[t as int][2] + before.vertices@.len() <= u32::MAX);
            let moved = [
                triangle[0] + next_vertex_index,
                triangle[1] + next_vertex_index,
                triangle[2] + next_vertex_index,
            ];
            self.indices.push(moved);
            t += 1;
        }
        let mut i: usize = 0;
        while i < other.material_indices.len()
            invariant
                i <= other.material_indices@.len(),
                before.takes(&other),
                next_material_index == before.material_indices@.len(),
                self.vertices@ == before.vertices@ + other.vertices@,
                self.materials == before.materials,
                self.indices@.len() == before.indices@.len() + other.indices@.len(),
                forall|s: int| 0 <= s < before.indices@.len() ==> #[trigger] self.indices@[s] == before.indices@[s],
                forall|s: int, k: int|
                    0 <= s < other.indices@.len() && 0 <= k < 3 ==> (#[trigger] self.indices@[
                        before.indices@.len() + s][k]) == other.indices@[s][k] + before.vertices@.len(),
                self.material_indices@.len() == before.material_indices@.len() + i,
                forall|s: int|
                    0 <= s < before.material_indices@.len() ==> #[trigger] self.material_indices@[s]
                        == before.material_indices@[s],
                forall|s: int|
                    0 <= s < i ==> #[trigger] self.material_indices@[before.material_indices@.len() + s]
                        == other.material_indices@[s] + before.material_indices@.len(),
            decreases other.material_indices@.len() - i,
        {
            let index = other.material_indices[i];
            self.material_indices.push(index + next_material_index);
            i += 1;
        }
        let mut m: usize = 0;
        while m < other.materials.len()
            invariant
                m <= other.materials@.len(),
                self.vertices@ == before.vertices@ + other.vertices@,
                self.materials@ == before.materials@ + other.materials@.subrange(0, m as int),
                self.indices@.len() == before.indices@.len() + other.indices@.len(),
                forall|s: int| 0 <= s < before.indices@.len() ==> #[trigger] self.indices@[s] == before.indices@[s],
                forall|s: int, k: int|
                    0 <= s < other.indices@.len() && 0 <= k < 3 ==> (#[trigger] self.indices@[
                        before.indices@.len() + s][k]) == other.indices@[s][k] + before.vertices@.len(),
                self.material_indices@.len() == before.material_indices@.len()
                    + other.material_indices@.len(),
                forall|s: int|
                    0 <= s < before.material_indices@.len() ==> #[trigger] self.material_indices@[s]
                        == before.material_indices@[s],
                forall|s: int|
                    0 <= s < other.material_indices@.len() ==> #[trigger] self.material_indices@[
                        before.material_indices@.len() + s] == other.material_indices@[s]
                        + before.material_indices@.len(),
            decreases other.materials@.len() - m,
        {
            self.materials.push(other.materials[m]);
            assert(self.materials@ =~= before.materials@ + other.materials@.subrange(0, m + 1));
            m += 1;
        }
        assert(other.materials@.subrange(0, other.materials@.len() as int) =~= other.materials@);
        proof {
            if before.indexed() && other.indexed() {
                assert forall|s: int, k: int| 0 <= s < self.indices@.len() && 0 <= k < 3 implies (
                #[trigger] self.indices@[s][k]) < self.vertices@.len() by {
                    if s < before.indices@.len() {
                        assert(self.indices@[s] == before.indices@[s]);
                        assert(before.indices@[s][k] < before.vertices@.len());
                    } else {
                        let o = s - before.indices@.len();
                        assert(self.indices@[before.indices@.len() + o][k] == other.indices@[o][k]
                            + before.vertices@.len());
                        assert(other.indices@[o][k] < other.vertices@.len());
                    }
                }
            }
        }
    }

    /// The triangle mesh of a host mesh, with `material` for every triangle.
    /// There is none unless the host mesh is a triangle list with positions
    /// and with indices that come in whole groups of three.
    pub fn from_mesh(mesh: &MeshData<V>, material: M) -> (converted: Option<Self>)
        ensures
            converted is Some <==> mesh.triangle_list && mesh.positions is Some && mesh.indices is Some
                && mesh.indices->0@.len() % 3 == 0,
            converted matches Some(trimesh) ==> {
                &&& trimesh.vertices@ == mesh.positions->0@
                &&& trimesh.indices@ == triangles_of(mesh.indices->0@)
                &&& trimesh.materials@ == Seq::new(trimesh.indices@.len(), |t: int| material)
                &&& trimesh.material_indices@ == Seq::new(trimesh.indices@.len(), |t: int| 0u32)
            },
    {
        if !mesh.triangle_list {
            return None;
        }
        let positions = match &mesh.positions {
            Some(positions) => positions,
            None => { return None; },
        };
        let indices = match &mesh.indices {
            Some(indices) => indices,
            None => { return None; },
        };
        if indices.len() % 3 != 0 {
            return None;
        }
        let mut vertices: Vec<V> = Vec::with_capacity(positions.len());
        let mut v: usize = 0;
        while v < positions.len()
            invariant
                v <= positions@.len(),
                vertices@ == positions@.subrange(0, v as int),
            decreases positions@.len() - v,
        {
            vertices.push(positions[v]);
            assert(vertices@ =~= positions@.subrange(0, v + 1));
            v += 1;
        }
        assert(positions@.subrange(0, positions@.len() as int) =~= positions@);
        let grouped = triangles(indices);
        let count = grouped.len();
        let mut materials: Vec<M> = Vec::with_capacity(count);
        let mut material_indices: Vec<u32> = Vec::with_capacity(count);
        let mut t: usize = 0;
        while t < count
            invariant
                t <= count,
                materials@ == Seq::new(t as nat, |k: int| material),
                material_indices@ == Seq::new(t as nat, |k: int| 0u32),
            decreases count - t,
        {
            materials.push(material);
            material_indices.push(0);
            assert(materials@ =~= Seq::new((t + 1) as nat, |k: int| material));
            assert(material_indices@ =~= Seq::new((t + 1) as nat, |k: int| 0u32));
            t += 1;
        }
        Some(TriMesh { vertices, indices: grouped, material_indices, materials })
    }
}

} // verus!
