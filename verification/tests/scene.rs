use bevy_steam_audio::debug::{SteamAudioGizmo, SteamAudioGizmoError};
use bevy_steam_audio::mesh::{triangles, MeshData, TriMesh};
use bevy_steam_audio::scene::{
    leaves_queue, plan_spawn, InSteamAudioMeshSpawnQueue, MeshEntity, SceneMutationGate, SpawnStep,
    Static,
};
use bevy_steam_audio::wrapper::{AudionimbusCoordinateSystem, Pose};

#[test]
fn commit_needs_an_idle_worker() {
    let mut gate = SceneMutationGate::new();
    assert!(gate.is_empty());
    gate.enqueue('a');
    gate.enqueue('b');
    assert_eq!(gate.len(), 2);
    assert_eq!(gate.commit(false), Vec::<char>::new());
    assert_eq!(gate.len(), 2);
    gate.enqueue('c');
    assert_eq!(gate.commit(true), vec!['a', 'b', 'c']);
    assert!(gate.is_empty());
    assert_eq!(gate.commit(true), Vec::<char>::new());
}

fn entity(queued: bool, fixed: bool, mesh_loaded: bool, sub_scene_cached: bool) -> MeshEntity {
    MeshEntity {
        queued: if queued { Some(InSteamAudioMeshSpawnQueue) } else { None },
        fixed: if fixed { Some(Static) } else { None },
        mesh_loaded,
        sub_scene_cached,
    }
}

#[test]
fn spawn_steps() {
    assert_eq!(plan_spawn(&entity(false, true, true, true)), SpawnStep::Skip);
    assert_eq!(plan_spawn(&entity(true, false, false, true)), SpawnStep::Wait);
    assert_eq!(plan_spawn(&entity(true, true, false, false)), SpawnStep::Wait);
    assert_eq!(plan_spawn(&entity(true, true, true, false)), SpawnStep::Bake);
    assert_eq!(
        plan_spawn(&entity(true, false, true, false)),
        SpawnStep::Instance { build_sub_scene: true }
    );
    assert_eq!(
        plan_spawn(&entity(true, false, true, true)),
        SpawnStep::Instance { build_sub_scene: false }
    );
    assert!(!leaves_queue(SpawnStep::Skip));
    assert!(!leaves_queue(SpawnStep::Wait));
    assert!(leaves_queue(SpawnStep::Bake));
    assert!(leaves_queue(SpawnStep::Instance { build_sub_scene: true }));
}

#[test]
fn indices_are_grouped_in_threes() {
    assert_eq!(triangles(&vec![]), Vec::<[u32; 3]>::new());
    assert_eq!(triangles(&vec![0, 1, 2, 2, 1, 3]), vec![[0, 1, 2], [2, 1, 3]]);
    assert_eq!(triangles(&vec![4, 5, 6, 7]), vec![[4, 5, 6]]);
}

fn quad() -> MeshData<[f32; 3]> {
    MeshData {
        triangle_list: true,
        positions: Some(vec![[0.0, 0.0, 0.0], [1.0, 0.0, 0.0], [0.0, 1.0, 0.0], [1.0, 1.0, 0.0]]),
        indices: Some(vec![0, 1, 2, 2, 1, 3]),
    }
}

#[test]
fn trimesh_from_mesh() {
    let mesh = TriMesh::from_mesh(&quad(), 'm').unwrap();
    assert_eq!(mesh.vertices.len(), 4);
    assert_eq!(mesh.vertices[3], [1.0, 1.0, 0.0]);
    assert_eq!(mesh.indices, vec![[0, 1, 2], [2, 1, 3]]);
    assert_eq!(mesh.material_indices, vec![0, 0]);
    assert_eq!(mesh.materials, vec!['m', 'm']);
}

#[test]
fn trimesh_from_mesh_refuses_what_is_no_triangle_list() {
    let mut strip = quad();
    strip.triangle_list = false;
    assert!(TriMesh::from_mesh(&strip, 'm').is_none());
    let mut bare = quad();
    bare.positions = None;
    assert!(TriMesh::from_mesh(&bare, 'm').is_none());
    let mut loose = quad();
    loose.indices = None;
    assert!(TriMesh::from_mesh(&loose, 'm').is_none());
    let mut torn = quad();
    torn.indices = Some(vec![0, 1, 2, 3]);
    assert!(TriMesh::from_mesh(&torn, 'm').is_none());
}

#[test]
fn trimesh_extend_moves_the_indices() {
    let mut mesh = TriMesh::from_mesh(&quad(), 'a').unwrap();
    let other = TriMesh::from_mesh(&quad(), 'b').unwrap();
    mesh.extend(other);
    assert_eq!(mesh.vertices.len(), 8);
    assert_eq!(mesh.indices, vec![[0, 1, 2], [2, 1, 3], [4, 5, 6], [6, 5, 7]]);
    assert_eq!(mesh.material_indices, vec![0, 0, 2, 2]);
    assert_eq!(mesh.materials, vec!['a', 'a', 'b', 'b']);

    let mut empty: TriMesh<[f32; 3], char> = TriMesh::new();
    empty.extend(mesh);
    assert_eq!(empty.indices, vec![[0, 1, 2], [2, 1, 3], [4, 5, 6], [6, 5, 7]]);
    assert_eq!(empty.material_indices, vec![0, 0, 2, 2]);
}

#[test]
fn gizmo_from_mesh() {
    let gizmo = SteamAudioGizmo::try_from_mesh(&quad()).unwrap();
    assert_eq!(gizmo.vertices.len(), 4);
    assert_eq!(gizmo.indices, vec![[0, 1, 2], [2, 1, 3]]);
}

#[test]
fn gizmo_errors() {
    let mut bare = quad();
    bare.positions = None;
    bare.indices = None;
    assert_eq!(
        SteamAudioGizmo::try_from_mesh(&bare).err(),
        Some(SteamAudioGizmoError::NoPositions)
    );
    let mut loose = quad();
    loose.indices = None;
    assert_eq!(
        SteamAudioGizmo::try_from_mesh(&loose).err(),
        Some(SteamAudioGizmoError::NoIndices)
    );
    assert_eq!(SteamAudioGizmoError::NoPositions.message(), "Mesh has no positions");
    assert_eq!(SteamAudioGizmoError::NoIndices.message(), "Mesh has no indices");
}

#[test]
fn coordinate_system_from_pose() {
    let pose = Pose {
        translation: [1.0f32, 2.0, 3.0],
        right: [1.0, 0.0, 0.0],
        up: [0.0, 1.0, 0.0],
        forward: [0.0, 0.0, -1.0],
    };
    let system = AudionimbusCoordinateSystem::from_bevy_transform(pose);
    assert_eq!(
        system,
        AudionimbusCoordinateSystem {
            right: [1.0, 0.0, 0.0],
            up: [0.0, 1.0, 0.0],
            ahead: [0.0, 0.0, -1.0],
            origin: [1.0, 2.0, 3.0],
        }
    );
}
