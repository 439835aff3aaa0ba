//! Outlines of the acoustic geometry, for looking at it.

use crate::mesh::{triangles, triangles_of, MeshData};
use vstd::prelude::*;

verus! {

/// The triangles of one mesh, to be drawn as lines.
pub struct SteamAudioGizmo<V> {
    pub vertices: Vec<V>,
    pub indices: Vec<[u32; 3]>,
}

/// Why a mesh has no outline.
#[derive(Clone, Copy, Debug, PartialEq, Eq, Structural)]
pub enum SteamAudioGizmoError {
    /// The mesh has no positions.
    NoPositions,
    /// The mesh has no indices.
    NoIndices,
}

impl SteamAudioGizmoError {
    /// The error in words.
    pub fn message(&self) -> (text: &'static str)
        ensures
            text@ == match *self {
                SteamAudioGizmoError::NoPositions => "Mesh has no positions"@,
                SteamAudioGizmoError::NoIndices => "Mesh has no indices"@,
            },
    {
        match self {
            SteamAudioGizmoError::NoPositions => "Mesh has no positions",
            SteamAudioGizmoError::NoIndices => "Mesh has no indices",
        }
    }
}

impl<V: Copy> SteamAudioGizmo<V> {
    /// The outline of a host mesh: its positions, and its indices in groups
    /// of three. Missing positions are reported before missing indices.
    pub fn try_from_mesh(mesh: &MeshData<V>) -> (outline: Result<Self, SteamAudioGizmoError>)
        requires
            mesh.positions is Some && mesh.indices is Some ==> mesh.indices->0@.len() % 3 == 0,
        ensures
            mesh.positions is None ==> outline == Err::<Self, SteamAudioGizmoError>(
                SteamAudioGizmoError::NoPositions,
            ),
            mesh.positions is Some && mesh.indices is None ==> outline == Err::<Self, SteamAudioGizmoError>(
                SteamAudioGizmoError::NoIndices,
            ),
            mesh.positions is Some && mesh.indices is Some ==> {
                &&& outline matches Ok(gizmo)
                &&& gizmo.vertices@ == mesh.positions->0@
                &&& gizmo.indices@ == triangles_of(mesh.indices->0@)
            },
    {
        let positions = match &mesh.positions {
            Some(positions) => positions,
            None => { return Err(SteamAudioGizmoError::NoPositions); },
        };
        let indices = match &mesh.indices {
            Some(indices) => indices,
            None => { return Err(SteamAudioGizmoError::NoIndices); },
        };
        let mut vertices: Vec<V> = Vec::with_capacity(positions.len());
        let mut v: usize = 0;
        while v < positions.len()
            invariant
                v <= positions@.len(),
                vertices@ == positions@.subrange(0, v as int),
            decreases positions@.len() - v,
        {
            vertices.push(positions[v]);
            assert(vertices@ =~= positions@.subrange(0, v + 1));
            v += 1;
        }
        assert(positions@.subrange(0, positions@.len() as int) =~= positions@);
        Ok(SteamAudioGizmo { vertices, indices: triangles(indices) })
    }
}

} // verus!
