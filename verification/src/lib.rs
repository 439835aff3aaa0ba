//! The verified core of a spatial audio plugin.
//!
//! A physically based acoustic simulation takes tens to hundreds of
//! milliseconds per pass; an audio callback comes every few milliseconds and
//! must never wait. This crate holds what lets the two work together:
//!
//! - [`nodes`]: the fixed frame accumulator between the callback's blocks of
//!   any length and the simulation's frames of one length, with
//!   [`channels`] as its vocabulary and [`reassembly`] for what it does to a
//!   whole stream;
//! - [`simulation`]: the scheduler that runs the cheap pass in every tick and
//!   starts the expensive pass on a worker, throttled by [`throttle`], with
//!   [`handoff`] for what holds of every interleaving of the two sides;
//! - [`scene`]: scene edits, which are let through only while the worker is
//!   idle, and the steps by which a mesh enters the scene;
//! - [`cache`] and [`sources`]: what the simulation computed per source, the
//!   passes a source takes part in, and the errors of a tick;
//! - [`lifecycle`]: tearing the engine down and building it again;
//! - [`mesh`], [`debug`], [`materials`], [`wrapper`]: triangle meshes,
//!   their outlines, materials by texture name, and coordinate systems.

pub mod cache;
pub mod channels;
pub mod debug;
pub mod handoff;
pub mod lifecycle;
pub mod materials;
pub mod mesh;
pub mod nodes;
pub mod reassembly;
pub mod scene;
pub mod simulation;
pub mod sources;
pub mod throttle;
pub mod wrapper;
