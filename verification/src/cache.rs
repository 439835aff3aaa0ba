//! The simulation output cache and what the render stage makes of it.
//!
//! The scheduler publishes what the simulation computed for a source; the
//! render stage reads it when it applies the effects. A read may be one tick
//! behind a write, never half of one: the cache holds whole parameter sets,
//! and the render stage stays silent until it has one of each kind.

use crate::nodes::ProcessStatus;
use crate::sources::SimulationFlags;
use vstd::prelude::*;

verus! {

/// What the simulation hands out for one source: the parameters of the
/// direct, the reflections and the pathing effect.
pub struct SimulationOutputs<D, R, P> {
    pub direct: D,
    pub reflections: R,
    pub pathing: P,
}

/// The latest parameters of one source.
pub struct OutputCache<D, R, P> {
    direct: Option<D>,
    reflections: Option<R>,
    pathing: Option<P>,
}

/// The new content of one slot of the cache: it is overwritten where the
/// update covers its pass, and filled in any case where it was empty.
pub open spec fn slot_after<X>(slot: Option<X>, covered: bool, value: X) -> Option<X> {
    if slot is None || covered {
        Some(value)
    } else {
        slot
    }
}

impl<D, R, P> OutputCache<D, R, P> {
    /// The latest parameters of the direct effect.
    pub closed spec fn direct(&self) -> Option<D> {
        self.direct
    }

    /// The latest parameters of the reflections effect.
    pub closed spec fn reflections(&self) -> Option<R> {
        self.reflections
    }

    /// The latest parameters of the pathing effect.
    pub closed spec fn pathing(&self) -> Option<P> {
        self.pathing
    }

    /// Whether the cache holds parameters of every kind.
    pub open spec fn complete(&self) -> bool {
        self.direct() is Some && self.reflections() is Some && self.pathing() is Some
    }

    /// A cache that holds nothing.
    pub fn new() -> (cache: Self)
        ensures
            cache.direct() is None,
            cache.reflections() is None,
            cache.pathing() is None,
    {
        OutputCache { direct: None, reflections: None, pathing: None }
    }

    /// Takes in what the simulation computed in the passes `flags`. The
    /// cache is complete from the first time on.
    pub fn publish(&mut self, flags: SimulationFlags, outputs: SimulationOutputs<D, R, P>)
        ensures
            final(self).complete(),
            final(self).direct() == slot_after(old(self).direct(), flags.direct, outputs.direct),
            final(self).reflections() == slot_after(
                old(self).reflections(),
                flags.reflections,
                outputs.reflections,
            ),
            final(self).pathing() == slot_after(old(self).pathing(), flags.pathing, outputs.pathing),
    {
        let SimulationOutputs { direct, reflections, pathing } = outputs;
        if self.direct.is_none() || flags.direct {
            self.direct = Some(direct);
        }
        if self.reflections.is_none() || flags.reflections {
            self.reflections = Some(reflections);
        }
        if self.pathing.is_none() || flags.pathing {
            self.pathing = Some(pathing);
        }
    }

    /// Whether the cache holds parameters of every kind.
    pub fn is_complete(&self) -> (complete: bool)
        ensures
            complete == self.complete(),
    {
        self.direct.is_some() && self.reflections.is_some() && self.pathing.is_some()
    }

    /// The parameters of the direct effect.
    pub fn direct_params(&self) -> (params: Option<&D>)
        ensures
            params == match self.direct() {
                Some(value) => Some(&value),
                None => None,
            },
    {
        self.direct.as_ref()
    }

    /// The parameters of the reflections effect.
    pub fn reflection_params(&self) -> (params: Option<&R>)
        ensures
            params == match self.reflections() {
                Some(value) => Some(&value),
                None => None,
            },
    {
        self.reflections.as_ref()
    }

    /// The parameters of the pathing effect.
    pub fn pathing_params(&self) -> (params: Option<&P>)
        ensures
            params == match self.pathing() {
                Some(value) => Some(&value),
                None => None,
            },
    {
        self.pathing.as_ref()
    }
}

/// What the render stage does with one block.
#[derive(Clone, Copy, Debug, PartialEq, Eq, Structural)]
pub enum RenderStep {
    /// Input and last output are silent: no tail is left, nothing is done
    /// and the outputs are cleared.
    Silent,
    /// Parameters are missing: whatever the accumulator holds is dropped and
    /// the outputs are cleared, so that nothing half-processed is heard.
    Reset,
    /// The block goes through the accumulator.
    Process,
}

/// The step of the render stage.
pub open spec fn render_step(prev_output_was_silent: bool, inputs_silent: bool, cache_complete: bool) -> RenderStep {
    if prev_output_was_silent && inputs_silent {
        RenderStep::Silent
    } else if !cache_complete {
        RenderStep::Reset
    } else {
        RenderStep::Process
    }
}

/// Decides what the render stage does with one block.
pub fn plan_render(prev_output_was_silent: bool, inputs_silent: bool, cache_complete: bool) -> (step:
    RenderStep)
    ensures
        step == render_step(prev_output_was_silent, inputs_silent, cache_complete),
{
    if prev_output_was_silent && inputs_silent {
        RenderStep::Silent
    } else if !cache_complete {
        RenderStep::Reset
    } else {
        RenderStep::Process
    }
}

/// Whether a stage without a tail of its own may skip a block: its input is
/// silent and no input waits in its accumulator.
pub fn may_skip(inputs_silent: bool, inputs_clear: bool) -> (skip: bool)
    ensures
        skip == (inputs_silent && inputs_clear),
{
    inputs_silent && inputs_clear
}

/// Whether the outputs are to be measured for silence after a block: they
/// are where they were written from silent input, since then only a tail is
/// left, which ends at some point.
pub fn measures_silence(status: ProcessStatus, inputs_silent: bool) -> (measure: bool)
    ensures
        measure == (status == ProcessStatus::OutputsModified && inputs_silent),
{
    match status {
        ProcessStatus::OutputsModified => inputs_silent,
        ProcessStatus::ClearAllOutputs => false,
    }
}

} // verus!
