//! Sources: the passes a source takes part in, and the errors of a tick.

use vstd::prelude::*;

verus! {

/// The simulation passes that a source takes part in.
#[derive(Clone, Copy, Debug, PartialEq, Eq, Structural)]
pub struct SimulationFlags {
    pub direct: bool,
    pub reflections: bool,
    pub pathing: bool,
}

impl SimulationFlags {
    /// The bit of the direct pass.
    pub const DIRECT: u32 = 1;

    /// The bit of the reflections pass.
    pub const REFLECTIONS: u32 = 2;

    /// The bit of the pathing pass.
    pub const PATHING: u32 = 4;

    /// The flags as a number: the sum of the bits of the passes.
    pub open spec fn spec_bits(self) -> nat {
        (if self.direct {
            1nat
        } else {
            0nat
        }) + (if self.reflections {
            2nat
        } else {
            0nat
        }) + (if self.pathing {
            4nat
        } else {
            0nat
        })
    }

    /// No pass.
    pub fn empty() -> (flags: Self)
        ensures
            flags == (SimulationFlags { direct: false, reflections: false, pathing: false }),
    {
        SimulationFlags { direct: false, reflections: false, pathing: false }
    }

    /// Every pass.
    pub fn all() -> (flags: Self)
        ensures
            flags == (SimulationFlags { direct: true, reflections: true, pathing: true }),
    {
        SimulationFlags { direct: true, reflections: true, pathing: true }
    }

    /// The passes whose bits are set in `bits`; other bits are dropped.
    pub open spec fn of_bits(bits: nat) -> Self {
        SimulationFlags {
            direct: bits % 2 == 1,
            reflections: (bits / 2) % 2 == 1,
            pathing: (bits / 4) % 2 == 1,
        }
    }

    /// The passes whose bits are set in `bits`; other bits are dropped.
    pub fn from_bits_truncate(bits: u32) -> (flags: Self)
        ensures
            flags == Self::of_bits(bits as nat),
    {
        SimulationFlags {
            direct: bits % 2 == 1,
            reflections: (bits / 2) % 2 == 1,
            pathing: (bits / 4) % 2 == 1,
        }
    }

    /// The flags as a number.
    pub fn bits(&self) -> (bits: u32)
        ensures
            bits == self.spec_bits(),
    {
        let mut bits: u32 = 0;
        if self.direct {
            bits = bits + 1;
        }
        if self.reflections {
            bits = bits + 2;
        }
        if self.pathing {
            bits = bits + 4;
        }
        bits
    }

    /// Whether no pass is set.
    pub fn is_empty(&self) -> (empty: bool)
        ensures
            empty == (!self.direct && !self.reflections && !self.pathing),
    {
        !self.direct && !self.reflections && !self.pathing
    }

    /// Whether every pass of `other` is set.
    pub fn contains(&self, other: SimulationFlags) -> (contained: bool)
        ensures
            contained == ((other.direct ==> self.direct) && (other.reflections ==> self.reflections) && (
            other.pathing ==> self.pathing)),
    {
        (!other.direct || self.direct) && (!other.reflections || self.reflections) && (!other.pathing
            || self.pathing)
    }

    /// The passes of both.
    pub fn union(&self, other: SimulationFlags) -> (both: Self)
        ensures
            both == (SimulationFlags {
                direct: self.direct || other.direct,
                reflections: self.reflections || other.reflections,
                pathing: self.pathing || other.pathing,
            }),
    {
        SimulationFlags {
            direct: self.direct || other.direct,
            reflections: self.reflections || other.reflections,
            pathing: self.pathing || other.pathing,
        }
    }

    /// Takes the passes of `other` out.
    pub fn remove(&mut self, other: SimulationFlags)
        ensures
            *final(self) == (SimulationFlags {
                direct: old(self).direct && !other.direct,
                reflections: old(self).reflections && !other.reflections,
                pathing: old(self).pathing && !other.pathing,
            }),
    {
        self.direct = self.direct && !other.direct;
        self.reflections = self.reflections && !other.reflections;
        self.pathing = self.pathing && !other.pathing;
    }

    /// Whether the source is part of the direct pass, which runs in every
    /// tick.
    pub fn in_direct_pass(&self) -> (taking_part: bool)
        ensures
            taking_part == self.direct,
    {
        self.direct
    }

    /// The passes of the source that the worker runs: all but the direct
    /// pass. There is none where the source takes part in the direct pass
    /// only, or in no pass.
    pub fn background_passes(&self) -> (passes: Option<SimulationFlags>)
        ensures
            passes == if self.reflections || self.pathing {
                Some(SimulationFlags { direct: false, ..*self })
            } else {
                None
            },
    {
        let mut flags = *self;
        flags.remove(SimulationFlags { direct: true, reflections: false, pathing: false });
        if flags.is_empty() {
            None
        } else {
            Some(flags)
        }
    }
}

/// Flags survive the way through their number: the number of a set of passes
/// is below 8 and stands for that set and no other.
pub proof fn lemma_bits_round_trip(flags: SimulationFlags)
    ensures
        flags.spec_bits() < 8,
        SimulationFlags::of_bits(flags.spec_bits()) == flags,
{
}

/// The lines of `messages` from `from` on, each line but the last followed
/// by a line break.
pub open spec fn joined_from(messages: Seq<Seq<char>>, from: int) -> Seq<char>
    decreases messages.len() - from,
{
    if from >= messages.len() {
        Seq::empty()
    } else if from == messages.len() - 1 {
        messages[from]
    } else {
        messages[from] + seq!['\n'] + joined_from(messages, from + 1)
    }
}

/// What a tick has to report at its end: nothing where no object failed, and
/// otherwise the messages of all that did, in order, one per line.
pub open spec fn tick_report(messages: Seq<Seq<char>>) -> Result<(), Seq<char>> {
    if messages.len() == 0 {
        Ok(())
    } else {
        Err(joined_from(messages, 0))
    }
}

/// The errors of one tick. An object that fails is reported here and left
/// out; the tick goes on with the other objects and reports once, at its
/// end.
pub struct TickErrors {
    messages: Vec<String>,
}

impl TickErrors {
    /// The messages so far, oldest first.
    pub closed spec fn messages(&self) -> Seq<Seq<char>> {
        Seq::new(self.messages@.len(), |i: int| self.messages@[i]@)
    }

    /// No error so far.
    pub fn new() -> (errors: Self)
        ensures
            errors.messages() == Seq::<Seq<char>>::empty(),
    {
        let errors = TickErrors { messages: Vec::new() };
        assert(errors.messages() =~= Seq::<Seq<char>>::empty());
        errors
    }

    /// Forgets the errors of the last tick.
    pub fn clear(&mut self)
        ensures
            final(self).messages() == Seq::<Seq<char>>::empty(),
    {
        self.messages.clear();
        assert(self.messages() =~= Seq::<Seq<char>>::empty());
    }

    /// Notes that an object failed, with a message that names it.
    pub fn push(&mut self, message: String)
        ensures
            final(self).messages() == old(self).messages().push(message@),
    {
        self.messages.push(message);
        assert(self.messages() =~= old(self).messages().push(message@));
    }

    /// Whether no object failed.
    pub fn is_empty(&self) -> (empty: bool)
        ensures
            empty == (self.messages().len() == 0),
    {
        self.messages.len() == 0
    }

    /// How many objects failed.
    pub fn len(&self) -> (len: usize)
        ensures
            len == self.messages().len(),
    {
        self.messages.len()
    }

    /// The report of the tick.
    pub fn report(&self) -> (report: Result<(), String>)
        ensures
            match report {
                Ok(_) => tick_report(self.messages()) is Ok,
                Err(text) => tick_report(self.messages()) == Err::<(), Seq<char>>(text@),
            },
    {
        let count = self.messages.len();
        if count == 0 {
            return Ok(());
        }
        let mut text = String::new();
        let mut i: usize = count;
        while i > 0
            invariant
                i <= count,
                count == self.messages@.len(),
                text@ == joined_from(self.messages(), i as int),
            decreases i,
        {
            i -= 1;
            let mut line = self.messages[i].clone();
            if i + 1 < count {
                line.append("\n");
                proof {
                    reveal_strlit("\n");
                    assert("\n"@ =~= seq!['\n']);
                }
                line.append(text.as_str());
            }
            assert(line@ =~= joined_from(self.messages(), i as int));
            text = line;
        }
        Err(text)
    }
}

} // verus!
