use vstd::prelude::*;
use crate::pin::{Level, PinId};

verus! {

/// The two timer/counter peripherals.  Each one owns an interrupt line of the
/// same name, so the identifier stands for both the timer and its line.
#[derive(Clone, Copy, Debug, PartialEq, Eq, Structural)]
pub enum TimerId {
    Tc3,
    Tc4,
}

/// One command for the hardware.  The verified state machines only ever
/// describe what must happen as a sequence of these; the unverified shell
/// carries each one out on the corresponding peripheral.
#[derive(Clone, Copy, Debug, PartialEq, Eq, Structural)]
pub enum Action {
    /// Unmask the timer's interrupt line at the interrupt controller.
    UnmaskLine(TimerId),
    /// Give the timer's interrupt line a priority at the interrupt controller.
    SetPriority(TimerId, u8),
    /// Drive an output pin to a level.
    DrivePin(PinId, Level),
    /// Start the timer, firing at the given rate in hertz.
    StartTimer(TimerId, u32),
    /// Enable the timer's own interrupt request generation.
    EnableInterrupt(TimerId),
    /// Acknowledge the timer's pending interrupt so it may fire again.
    AckTimer(TimerId),
    /// Busy-wait for the given number of milliseconds.
    DelayMs(u32),
    /// Software-request the timer's interrupt line, as if the timer had fired.
    PendLine(TimerId),
    /// Park the core until the next interrupt.
    WaitForInterrupt,
}

/// Whether an action changes the state of an output pin.  Every observable
/// LED change goes through exactly this one action.
pub open spec fn drives_pin(a: Action) -> bool {
    a is DrivePin
}

/// A trace that never touches a pin: both LEDs keep whatever state they had.
pub open spec fn leaves_pins_alone(t: Seq<Action>) -> bool {
    forall|i: int| 0 <= i < t.len() ==> !drives_pin(#[trigger] t[i])
}

} // verus!
