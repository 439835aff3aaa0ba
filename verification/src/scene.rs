//! The acoustic scene: how edits reach it, and how a mesh gets into it.
//!
//! Edits to the acoustic scene (geometry added or removed, a transform
//! moved) may be made at any time, but the simulation must never see half of
//! them. A [`SceneMutationGate`] collects the edits and lets them through in
//! one piece, and only at a moment when the worker is known to be idle.

use vstd::prelude::*;

verus! {

/// The edits that wait, and the one way they get out.
pub struct SceneMutationGate<E> {
    pending: Vec<E>,
}

impl<E> View for SceneMutationGate<E> {
    type V = Seq<E>;

    /// The edits that wait, oldest first.
    closed spec fn view(&self) -> Seq<E> {
        self.pending@
    }
}

/// The edits that a commit lets through, and the edits that stay behind.
pub open spec fn commit_plan<E>(pending: Seq<E>, worker_idle: bool) -> (Seq<E>, Seq<E>) {
    if worker_idle {
        (pending, Seq::empty())
    } else {
        (Seq::empty(), pending)
    }
}

impl<E> SceneMutationGate<E> {
    /// A gate at which nothing waits.
    pub fn new() -> (gate: Self)
        ensures
            gate@ == Seq::<E>::empty(),
    {
        SceneMutationGate { pending: Vec::new() }
    }

    /// Puts `edit` behind the edits that already wait.
    pub fn enqueue(&mut self, edit: E)
        ensures
            final(self)@ == old(self)@.push(edit),
    {
        self.pending.push(edit);
    }

    /// How many edits wait.
    pub fn len(&self) -> (len: usize)
        ensures
            len == self@.len(),
    {
        self.pending.len()
    }

    /// Whether nothing waits.
    pub fn is_empty(&self) -> (empty: bool)
        ensures
            empty == (self@.len() == 0),
    {
        self.pending.len() == 0
    }

    /// The commit: with an idle worker all waiting edits are handed out, in
    /// the order they came; with a busy worker none is, and all keep waiting.
    pub fn commit(&mut self, worker_idle: bool) -> (released: Vec<E>)
        ensures
            (released@, final(self)@) == commit_plan(old(self)@, worker_idle),
    {
        let mut released: Vec<E> = Vec::new();
        if worker_idle {
            core::mem::swap(&mut released, &mut self.pending);
        }
        released
    }
}

/// Marks geometry that never moves. It is baked into the root scene; all
/// other geometry is instanced, so that it can be moved later.
#[derive(Clone, Copy, Debug, PartialEq, Eq, Structural)]
pub struct Static;

/// Marks an object whose mesh waits to be given to the acoustic scene.
#[derive(Clone, Copy, Debug, PartialEq, Eq, Structural)]
pub struct InSteamAudioMeshSpawnQueue;

/// What the mesh lifecycle reads of one object.
#[derive(Clone, Copy, Debug, PartialEq, Eq, Structural)]
pub struct MeshEntity {
    /// Whether the object waits in the spawn queue.
    pub queued: Option<InSteamAudioMeshSpawnQueue>,
    /// Whether the object is marked as never moving.
    pub fixed: Option<Static>,
    /// Whether the object's mesh has been loaded.
    pub mesh_loaded: bool,
    /// Whether a sub-scene has been built for this mesh before.
    pub sub_scene_cached: bool,
}

/// What is done with one object when the spawn queue is worked off.
#[derive(Clone, Copy, Debug, PartialEq, Eq, Structural)]
pub enum SpawnStep {
    /// The object does not wait: nothing is done.
    Skip,
    /// The mesh is not loaded yet: the object keeps waiting.
    Wait,
    /// The mesh is instanced into the root scene, from the sub-scene built
    /// for it before or, with `build_sub_scene`, from one that is built and
    /// committed now.
    Instance { build_sub_scene: bool },
    /// The mesh is moved to its place and baked into the root scene.
    Bake,
}

/// The step for `entity`.
pub open spec fn spawn_step(entity: MeshEntity) -> SpawnStep {
    if entity.queued is None {
        SpawnStep::Skip
    } else if !entity.mesh_loaded {
        SpawnStep::Wait
    } else if entity.fixed is Some {
        SpawnStep::Bake
    } else {
        SpawnStep::Instance { build_sub_scene: !entity.sub_scene_cached }
    }
}

/// Decides what is done with `entity` when the spawn queue is worked off.
pub fn plan_spawn(entity: &MeshEntity) -> (step: SpawnStep)
    ensures
        step == spawn_step(*entity),
{
    if entity.queued.is_none() {
        SpawnStep::Skip
    } else if !entity.mesh_loaded {
        SpawnStep::Wait
    } else if entity.fixed.is_some() {
        SpawnStep::Bake
    } else {
        SpawnStep::Instance { build_sub_scene: !entity.sub_scene_cached }
    }
}

/// Whether the object leaves the spawn queue after `step`: it does after
/// every step that was tried, whether it succeeded or failed, and stays only
/// while its mesh is not loaded.
pub fn leaves_queue(step: SpawnStep) -> (leaves: bool)
    ensures
        leaves == (step is Instance || step is Bake),
{
    match step {
        SpawnStep::Skip => false,
        SpawnStep::Wait => false,
        SpawnStep::Instance { .. } => true,
        SpawnStep::Bake => true,
    }
}

} // verus!
