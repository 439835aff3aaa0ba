//! Positions and orientations.
//!
//! The host's transform system supplies one pose per tick for the listener and
//! for each source. The simulation wants a coordinate system: an origin and
//! three axes. The vector type is the host's; nothing here looks inside it.

use vstd::prelude::*;

verus! {

/// Where an object is and how it is turned: its translation and its own
/// right, up and forward directions.
#[derive(Debug, PartialEq)]
pub struct Pose<V> {
    pub translation: V,
    pub right: V,
    pub up: V,
    pub forward: V,
}

/// A coordinate system as the simulation takes it.
#[derive(Debug, PartialEq)]
pub struct AudionimbusCoordinateSystem<V> {
    pub right: V,
    pub up: V,
    pub ahead: V,
    pub origin: V,
}

impl<V> AudionimbusCoordinateSystem<V> {
    /// The coordinate system of an object: it sits at the object's
    /// translation and looks along its forward direction.
    pub fn from_bevy_transform(transform: Pose<V>) -> (system: Self)
        ensures
            system == (AudionimbusCoordinateSystem {
                right: transform.right,
                up: transform.up,
                ahead: transform.forward,
                origin: transform.translation,
            }),
    {
        AudionimbusCoordinateSystem {
            right: transform.right,
            up: transform.up,
            ahead: transform.forward,
            origin: transform.translation,
        }
    }
}

} // verus!
