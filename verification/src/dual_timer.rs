//! The two-hardware-timer blinker: TC3 and TC4 each fire periodically at
//! their own rate, and each handler toggles its own LED and acknowledges its
//! own timer.  The idle loop only parks the core.

use vstd::prelude::*;
use crate::action::{Action, TimerId};
use crate::pin::{lemma_flip_involution, Level, PinId};

verus! {

/// Rate at which TC3 fires and the on-board LED is toggled, in hertz.
pub const TC3_HZ: u32 = 2;
/// Rate at which TC4 fires and the external LED is toggled, in hertz.
pub const TC4_HZ: u32 = 10;
/// Priority value given to the TC3 interrupt line.
pub const TC3_PRIORITY: u8 = 1;
/// Priority value given to the TC4 interrupt line.
pub const TC4_PRIORITY: u8 = 2;

/// An interrupt event: one of the two timers raised its line.
#[derive(Clone, Copy, Debug, PartialEq, Eq, Structural)]
pub enum Event {
    Tc3Fired,
    Tc4Fired,
}

/// State of the two-timer blinker.  Each timer owns one LED and toggles it on
/// every firing; the `armed` flags record whether the timer's last request
/// has been acknowledged, which is what allows it to raise the next one.
#[derive(Clone, Copy, Debug, PartialEq, Eq, Structural)]
pub struct Machine {
    /// Level currently driven on the on-board LED (toggled by TC3).
    pub led: Level,
    /// Level currently driven on the external LED (toggled by TC4).
    pub ext_led: Level,
    /// TC3's last interrupt request stands acknowledged.
    pub tc3_armed: bool,
    /// TC4's last interrupt request stands acknowledged.
    pub tc4_armed: bool,
}

/// The state every successful bring-up establishes: both LEDs driven low,
/// both timers free to fire.
pub open spec fn initial_machine() -> Machine {
    Machine { led: Level::Low, ext_led: Level::Low, tc3_armed: true, tc4_armed: true }
}

/// The exact order of hardware actions of a successful bring-up: unmask both
/// interrupt lines and assign their priorities, drive both LEDs low, then
/// start each timer at its rate and let it generate interrupts.
pub open spec fn setup_plan() -> Seq<Action> {
    seq![
        Action::UnmaskLine(TimerId::Tc3),
        Action::UnmaskLine(TimerId::Tc4),
        Action::SetPriority(TimerId::Tc3, TC3_PRIORITY),
        Action::SetPriority(TimerId::Tc4, TC4_PRIORITY),
        Action::DrivePin(PinId::Led, Level::Low),
        Action::DrivePin(PinId::ExtLed, Level::Low),
        Action::StartTimer(TimerId::Tc3, TC3_HZ),
        Action::EnableInterrupt(TimerId::Tc3),
        Action::StartTimer(TimerId::Tc4, TC4_HZ),
        Action::EnableInterrupt(TimerId::Tc4),
    ]
}

/// How one firing changes the machine: the owning LED flips, the fired timer
/// ends the handler acknowledged, and nothing else moves.
pub open spec fn step(m: Machine, e: Event) -> Machine {
    match e {
        Event::Tc3Fired => Machine {
            led: m.led.flipped(),
            ext_led: m.ext_led,
            tc3_armed: true,
            tc4_armed: m.tc4_armed,
        },
        Event::Tc4Fired => Machine {
            led: m.led,
            ext_led: m.ext_led.flipped(),
            tc3_armed: m.tc3_armed,
            tc4_armed: true,
        },
    }
}

/// The hardware actions a handler performs for one firing: drive the owning
/// LED to its new level, then acknowledge the timer.
pub open spec fn step_actions(m: Machine, e: Event) -> Seq<Action> {
    match e {
        Event::Tc3Fired => seq![
            Action::DrivePin(PinId::Led, m.led.flipped()),
            Action::AckTimer(TimerId::Tc3),
        ],
        Event::Tc4Fired => seq![
            Action::DrivePin(PinId::ExtLed, m.ext_led.flipped()),
            Action::AckTimer(TimerId::Tc4),
        ],
    }
}

impl Machine {
    /// Both timers stand acknowledged, so each may raise its next request.
    pub open spec fn armed(self) -> bool {
        self.tc3_armed && self.tc4_armed
    }

    /// The one-time bring-up decision: the machine's initial state, together
    /// with the exact action sequence that establishes it on the hardware.
    pub fn new() -> (r: (Machine, Vec<Action>))
        ensures
            r.0 == initial_machine(),
            r.1@ == setup_plan(),
    {
        let mut plan: Vec<Action> = Vec::new();
        plan.push(Action::UnmaskLine(TimerId::Tc3));
        plan.push(Action::UnmaskLine(TimerId::Tc4));
        plan.push(Action::SetPriority(TimerId::Tc3, TC3_PRIORITY));
        plan.push(Action::SetPriority(TimerId::Tc4, TC4_PRIORITY));
        plan.push(Action::DrivePin(PinId::Led, Level::Low));
        plan.push(Action::DrivePin(PinId::ExtLed, Level::Low));
        plan.push(Action::StartTimer(TimerId::Tc3, TC3_HZ));
        plan.push(Action::EnableInterrupt(TimerId::Tc3));
        plan.push(Action::StartTimer(TimerId::Tc4, TC4_HZ));
        plan.push(Action::EnableInterrupt(TimerId::Tc4));
        proof {
            assert(plan@ =~= setup_plan());
        }
        let m = Machine { led: Level::Low, ext_led: Level::Low, tc3_armed: true, tc4_armed: true };
        (m, plan)
    }

    /// Handler for a TC3 firing: toggle the on-board LED, then acknowledge
    /// the timer.  The last clause is the re-arm guarantee: the timer leaves
    /// the handler able to fire again.
    pub fn on_tc3(&mut self) -> (acts: Vec<Action>)
        ensures
            *final(self) == step(*old(self), Event::Tc3Fired),
            acts@ == step_actions(*old(self), Event::Tc3Fired),
            final(self).tc3_armed,
    {
        let lvl = self.led.toggled();
        self.led = lvl;
        self.tc3_armed = true;
        let mut acts: Vec<Action> = Vec::new();
        acts.push(Action::DrivePin(PinId::Led, lvl));
        acts.push(Action::AckTimer(TimerId::Tc3));
        proof {
            assert(acts@ =~= step_actions(*old(self), Event::Tc3Fired));
        }
        acts
    }

    /// Handler for a TC4 firing: toggle the external LED, then acknowledge
    /// the timer, which leaves it able to fire again.
    pub fn on_tc4(&mut self) -> (acts: Vec<Action>)
        ensures
            *final(self) == step(*old(self), Event::Tc4Fired),
            acts@ == step_actions(*old(self), Event::Tc4Fired),
            final(self).tc4_armed,
    {
        let lvl = self.ext_led.toggled();
        self.ext_led = lvl;
        self.tc4_armed = true;
        let mut acts: Vec<Action> = Vec::new();
        acts.push(Action::DrivePin(PinId::ExtLed, lvl));
        acts.push(Action::AckTimer(TimerId::Tc4));
        proof {
            assert(acts@ =~= step_actions(*old(self), Event::Tc4Fired));
        }
        acts
    }

    /// Serve one interrupt event, whichever timer raised it.
    pub fn on_event(&mut self, e: Event) -> (acts: Vec<Action>)
        ensures
            *final(self) == step(*old(self), e),
            acts@ == step_actions(*old(self), e),
    {
        match e {
            Event::Tc3Fired => self.on_tc3(),
            Event::Tc4Fired => self.on_tc4(),
        }
    }

    /// The idle loop's entire decision: park the core between interrupts.
    pub fn idle_action(&self) -> (a: Action)
        ensures
            a == Action::WaitForInterrupt,
    {
        Action::WaitForInterrupt
    }
}

/// The machine after a whole sequence of firings, served front to back.
pub open spec fn run(m: Machine, es: Seq<Event>) -> Machine
    decreases es.len(),
{
    if es.len() == 0 {
        m
    } else {
        step(run(m, es.drop_last()), es.last())
    }
}

/// How many events of the sequence are the given firing.
pub open spec fn count_fires(es: Seq<Event>, which: Event) -> nat
    decreases es.len(),
{
    if es.len() == 0 {
        0
    } else {
        count_fires(es.drop_last(), which) + (if es.last() == which { 1nat } else { 0nat })
    }
}

/// The two LEDs blink independently, each at its own timer's rate: over any
/// interleaving of firings, the on-board LED's level depends only on how
/// often TC3 fired — flipped once per firing — and the external LED's level
/// only on how often TC4 fired.
pub proof fn lemma_leds_independent(m: Machine, es: Seq<Event>)
    ensures
        run(m, es).led == (if count_fires(es, Event::Tc3Fired) % 2 == 0 {
            m.led
        } else {
            m.led.flipped()
        }),
        run(m, es).ext_led == (if count_fires(es, Event::Tc4Fired) % 2 == 0 {
            m.ext_led
        } else {
            m.ext_led.flipped()
        }),
    decreases es.len(),
{
    if es.len() > 0 {
        lemma_leds_independent(m, es.drop_last());
        lemma_flip_involution(m.led);
        lemma_flip_involution(m.ext_led);
    }
}

/// The whole firmware: running with a machine after a successful bring-up,
/// or halted for good after a failed one.  The halted state is terminal — it
/// serves every event by doing nothing at all.
#[derive(Clone, Copy, Debug, PartialEq, Eq, Structural)]
pub enum System {
    Running(Machine),
    Halted,
}

/// How one event moves the whole firmware: a running machine steps, a halted
/// one stays halted.
pub open spec fn sys_step(s: System, e: Event) -> System {
    match s {
        System::Running(m) => System::Running(step(m, e)),
        System::Halted => System::Halted,
    }
}

/// The hardware actions one event causes: a handler's actions when running,
/// none at all when halted.
pub open spec fn sys_step_actions(s: System, e: Event) -> Seq<Action> {
    match s {
        System::Running(m) => step_actions(m, e),
        System::Halted => Seq::empty(),
    }
}

impl System {
    /// One-time bring-up.  With the hardware handles in hand the firmware
    /// comes up running, with the full setup plan to perform; without them it
    /// halts, and the empty action list shows that nothing, no pin least of
    /// all, is touched on the way down.
    pub fn boot(hw_ok: bool) -> (r: (System, Vec<Action>))
        ensures
            hw_ok ==> r.0 == System::Running(initial_machine()) && r.1@ == setup_plan(),
            !hw_ok ==> r.0 == System::Halted && r.1@ == Seq::<Action>::empty(),
    {
        if hw_ok {
            let (m, plan) = Machine::new();
            (System::Running(m), plan)
        } else {
            let plan: Vec<Action> = Vec::new();
            proof {
                assert(plan@ =~= Seq::<Action>::empty());
            }
            (System::Halted, plan)
        }
    }

    /// Serve one interrupt event.  A halted firmware ignores it and performs
    /// no action; a running one hands it to the machine's handler.
    pub fn on_event(&mut self, e: Event) -> (acts: Vec<Action>)
        ensures
            *final(self) == sys_step(*old(self), e),
            acts@ == sys_step_actions(*old(self), e),
    {
        match self {
            System::Running(m) => m.on_event(e),
            System::Halted => {
                let acts: Vec<Action> = Vec::new();
                proof {
                    assert(acts@ =~= Seq::<Action>::empty());
                }
                acts
            },
        }
    }
}

/// The firmware after a whole sequence of events.
pub open spec fn sys_run(s: System, es: Seq<Event>) -> System
    decreases es.len(),
{
    if es.len() == 0 {
        s
    } else {
        sys_step(sys_run(s, es.drop_last()), es.last())
    }
}

/// Every hardware action the firmware performs over a whole sequence of
/// events, in order.
pub open spec fn sys_trace(s: System, es: Seq<Event>) -> Seq<Action>
    decreases es.len(),
{
    if es.len() == 0 {
        Seq::empty()
    } else {
        sys_trace(s, es.drop_last()) + sys_step_actions(sys_run(s, es.drop_last()), es.last())
    }
}

/// A firmware that halted at bring-up stays halted and performs no action at
/// all, whatever events arrive: in particular it never drives a pin, so both
/// LEDs keep their power-on state for ever.
pub proof fn lemma_halted_drives_no_pin(es: Seq<Event>)
    ensures
        sys_run(System::Halted, es) == System::Halted,
        sys_trace(System::Halted, es) =~= Seq::<Action>::empty(),
        crate::action::leaves_pins_alone(sys_trace(System::Halted, es)),
    decreases es.len(),
{
    if es.len() > 0 {
        lemma_halted_drives_no_pin(es.drop_last());
    }
}

/// Every handler acknowledges its own timer and leaves the other alone, so a
/// machine whose timers are both armed keeps them armed through any sequence
/// of firings: no firing is ever the last one.
pub proof fn lemma_run_stays_armed(m: Machine, es: Seq<Event>)
    ensures
        m.armed() ==> run(m, es).armed(),
    decreases es.len(),
{
    if es.len() > 0 {
        lemma_run_stays_armed(m, es.drop_last());
    }
}

} // verus!
