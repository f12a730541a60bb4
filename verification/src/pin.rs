use vstd::prelude::*;

verus! {

/// The electrical level driven on a GPIO output line; an LED is lit when its
/// line is `High`.
#[derive(Clone, Copy, Debug, PartialEq, Eq, Structural)]
pub enum Level {
    Low,
    High,
}

impl Level {
    /// The opposite level.
    pub open spec fn flipped(self) -> Level {
        match self {
            Level::Low => Level::High,
            Level::High => Level::Low,
        }
    }

    /// Executable counterpart of [`Level::flipped`].
    pub fn toggled(self) -> (r: Level)
        ensures
            r == self.flipped(),
    {
        match self {
            Level::Low => Level::High,
            Level::High => Level::Low,
        }
    }
}

/// Toggling a line twice restores its original level.
pub proof fn lemma_flip_involution(l: Level)
    ensures
        l.flipped().flipped() == l,
{
}

/// The two output lines the firmware owns: the on-board LED and an external
/// LED wired to a digital pin.
#[derive(Clone, Copy, Debug, PartialEq, Eq, Structural)]
pub enum PinId {
    Led,
    ExtLed,
}

} // verus!
