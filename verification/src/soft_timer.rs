//! The software-pended blinker: the idle loop waits a fixed delay and then
//! requests the one interrupt line by hand, and the handler drives the LED
//! high on every fifth firing and low on the rest.

use vstd::prelude::*;
use vstd::arithmetic::div_mod::{
    lemma_add_mod_noop_right, lemma_fundamental_div_mod, lemma_mod_add_multiples_vanish,
    lemma_mod_multiples_basic,
};
use crate::action::{leaves_pins_alone, Action, TimerId};
use crate::pin::{Level, PinId};

verus! {

/// Period of the blink pattern, in firings: the LED is driven high on one
/// firing out of this many, low on the rest.
pub const PATTERN_PERIOD: u32 = 5;

/// The fixed delay the idle loop waits before requesting the next firing,
/// in milliseconds.
pub const FIRE_DELAY_MS: u32 = 200;

/// The level the handler drives on the `i`-th firing, counted from zero:
/// high on every fifth one, low on the other four.
pub open spec fn level_for(i: nat) -> Level {
    if i % (PATTERN_PERIOD as nat) == 0 {
        Level::High
    } else {
        Level::Low
    }
}

/// State of the software-pended blinker.  The handler decides the LED level
/// from a counter; the counter it stores is the firing count reduced modulo
/// the pattern period, so the decision stays exact for arbitrarily many
/// firings — wrapping the stored counter never skews the pattern.
#[derive(Clone, Copy)]
pub struct Blinker {
    /// Level currently driven on the LED.
    pub pin: Level,
    /// The firing count, reduced modulo [`PATTERN_PERIOD`].
    pub counter: u32,
    /// How many firings have been served, in full.
    pub fires: Ghost<nat>,
}

/// The bring-up actions of this variant: unmask the one interrupt line and
/// drive the LED low.
pub open spec fn soft_setup_plan() -> Seq<Action> {
    seq![Action::UnmaskLine(TimerId::Tc3), Action::DrivePin(PinId::Led, Level::Low)]
}

/// How one firing changes the blinker: the pin takes the level the pattern
/// assigns to this firing and the count moves on.
pub open spec fn blink_step(b: Blinker) -> Blinker {
    Blinker {
        pin: level_for(b.fires@),
        counter: (((b.fires@ + 1) as nat) % (PATTERN_PERIOD as nat)) as u32,
        fires: Ghost((b.fires@ + 1) as nat),
    }
}

impl Blinker {
    /// The stored counter agrees with the firing count, and the pin shows
    /// the level of the last firing — low before the first one.
    pub open spec fn wf(self) -> bool {
        &&& self.counter == self.fires@ % (PATTERN_PERIOD as nat)
        &&& (self.fires@ == 0 ==> self.pin == Level::Low)
        &&& (self.fires@ > 0 ==> self.pin == level_for((self.fires@ - 1) as nat))
    }

    /// The bring-up decision: the blinker before its first firing, together
    /// with the actions that establish it on the hardware.
    pub fn new() -> (r: (Blinker, Vec<Action>))
        ensures
            r.0.wf(),
            r.0.fires@ == 0,
            r.0.counter == 0,
            r.0.pin == Level::Low,
            r.1@ == soft_setup_plan(),
    {
        let mut plan: Vec<Action> = Vec::new();
        plan.push(Action::UnmaskLine(TimerId::Tc3));
        plan.push(Action::DrivePin(PinId::Led, Level::Low));
        proof {
            assert(plan@ =~= soft_setup_plan());
        }
        let b = Blinker { pin: Level::Low, counter: 0, fires: Ghost(0) };
        (b, plan)
    }

    /// The interrupt handler: drive the LED high on every fifth firing and
    /// low otherwise, then move the counter on.  The level driven is exactly
    /// the one the pattern assigns to this firing, however many firings have
    /// gone before.
    pub fn on_fire(&mut self) -> (acts: Vec<Action>)
        requires
            old(self).wf(),
        ensures
            final(self).wf(),
            *final(self) == blink_step(*old(self)),
            final(self).fires@ == old(self).fires@ + 1,
            final(self).pin == level_for(old(self).fires@),
            acts@ == seq![Action::DrivePin(PinId::Led, level_for(old(self).fires@))],
    {
        let lvl = if self.counter == 0 {
            Level::High
        } else {
            Level::Low
        };
        self.pin = lvl;
        self.counter = (self.counter + 1) % PATTERN_PERIOD;
        proof {
            self.fires@ = self.fires@ + 1;
            lemma_add_mod_noop_right(1, old(self).fires@ as int, PATTERN_PERIOD as int);
        }
        let mut acts: Vec<Action> = Vec::new();
        acts.push(Action::DrivePin(PinId::Led, lvl));
        proof {
            assert(acts@ =~= seq![Action::DrivePin(PinId::Led, level_for(old(self).fires@))]);
        }
        acts
    }
}

/// One pass of the idle loop: wait the fixed delay, then software-request
/// the interrupt line, as if the timer had fired.
pub open spec fn cycle_plan() -> Seq<Action> {
    seq![Action::DelayMs(FIRE_DELAY_MS), Action::PendLine(TimerId::Tc3)]
}

/// How many interrupt requests a trace makes.
pub open spec fn pend_count(t: Seq<Action>) -> nat
    decreases t.len(),
{
    if t.len() == 0 {
        0
    } else {
        pend_count(t.drop_last()) + (if t.last() is PendLine { 1nat } else { 0nat })
    }
}

/// The idle loop's whole decision for one pass.  Exactly one interrupt
/// request stands in it: one pass, one firing.
pub fn idle_cycle() -> (acts: Vec<Action>)
    ensures
        acts@ == cycle_plan(),
        pend_count(acts@) == 1,
{
    let mut acts: Vec<Action> = Vec::new();
    acts.push(Action::DelayMs(FIRE_DELAY_MS));
    acts.push(Action::PendLine(TimerId::Tc3));
    proof {
        assert(acts@ =~= cycle_plan());
        lemma_cycle_pends_once();
    }
    acts
}

/// One pass of the idle loop requests exactly one firing.
pub proof fn lemma_cycle_pends_once()
    ensures
        pend_count(cycle_plan()) == 1,
{
    let c = cycle_plan();
    let c1 = c.drop_last();
    assert(c1 =~= seq![Action::DelayMs(FIRE_DELAY_MS)]);
    assert(c1.drop_last() =~= Seq::<Action>::empty());
    assert(pend_count(c1.drop_last()) == 0);
    assert(c1.last() == Action::DelayMs(FIRE_DELAY_MS));
    assert(pend_count(c1) == 0);
    assert(c.last() == Action::PendLine(TimerId::Tc3));
}

/// The idle loop's first `n` passes, in order.
pub open spec fn cycles_plan(n: nat) -> Seq<Action>
    decreases n,
{
    if n == 0 {
        Seq::empty()
    } else {
        cycles_plan((n - 1) as nat) + cycle_plan()
    }
}

/// The request count splits over concatenation.
proof fn lemma_pend_count_add(a: Seq<Action>, b: Seq<Action>)
    ensures
        pend_count(a + b) == pend_count(a) + pend_count(b),
    decreases b.len(),
{
    if b.len() == 0 {
        assert(a + b =~= a);
    } else {
        lemma_pend_count_add(a, b.drop_last());
        assert((a + b).drop_last() =~= a + b.drop_last());
    }
}

/// Passes of the idle loop and firings stay in lockstep: `n` passes make
/// exactly `n` interrupt requests, and each request fires the handler once.
pub proof fn lemma_one_fire_per_cycle(n: nat)
    ensures
        pend_count(cycles_plan(n)) == n,
    decreases n,
{
    if n > 0 {
        lemma_one_fire_per_cycle((n - 1) as nat);
        lemma_pend_count_add(cycles_plan((n - 1) as nat), cycle_plan());
        lemma_cycle_pends_once();
    }
}

/// Among any five consecutive firings there is exactly one on which the pin
/// is driven high: one where the firing count is a multiple of the period,
/// and no other.
pub proof fn lemma_one_high_in_five(start: nat)
    ensures
        exists|j: nat|
            start <= j < start + PATTERN_PERIOD && #[trigger] level_for(j) is High,
        forall|j: nat, k: nat|
            start <= j < start + PATTERN_PERIOD && start <= k < start + PATTERN_PERIOD
                && #[trigger] level_for(j) is High && #[trigger] level_for(k) is High ==> j == k,
{
    let p = PATTERN_PERIOD as nat;
    let r = start % p;
    lemma_fundamental_div_mod(start as int, p as int);
    let q = (start as int) / (p as int);
    if r == 0 {
        assert(level_for(start) is High);
        assert(start <= start < start + p);
    } else {
        let j = (start + p - r) as nat;
        assert(j as int == (q + 1) * (p as int));
        lemma_mod_multiples_basic(q + 1, p as int);
        assert(j % p == 0);
        assert(level_for(j) is High);
        assert(start <= j < start + p);
    }
    assert forall|j: nat, k: nat|
        start <= j < start + PATTERN_PERIOD && start <= k < start + PATTERN_PERIOD
            && #[trigger] level_for(j) is High && #[trigger] level_for(k) is High implies j == k by {
        lemma_fundamental_div_mod(j as int, p as int);
        lemma_fundamental_div_mod(k as int, p as int);
        let a = (j as int) / (p as int);
        let b = (k as int) / (p as int);
        assert(j as int == (p as int) * a);
        assert(k as int == (p as int) * b);
    };
}

/// The pattern repeats with the period: the firing one period later sees the
/// same level again.
pub proof fn lemma_pattern_repeats(i: nat)
    ensures
        level_for((i + PATTERN_PERIOD) as nat) == level_for(i),
{
    lemma_mod_add_multiples_vanish(i as int, PATTERN_PERIOD as int);
}

/// The whole firmware of this variant: running with a blinker after a
/// successful bring-up, or halted for good after a failed one.
#[derive(Clone, Copy)]
pub enum System {
    Running(Blinker),
    Halted,
}

/// A running system carries a well-formed blinker.
pub open spec fn sys_wf(s: System) -> bool {
    s matches System::Running(b) ==> b.wf()
}

/// How one firing moves the whole firmware: a running blinker steps, a
/// halted firmware stays halted.
pub open spec fn sys_step(s: System) -> System {
    match s {
        System::Running(b) => System::Running(blink_step(b)),
        System::Halted => System::Halted,
    }
}

/// The hardware actions one firing causes: the handler's single pin drive
/// when running, none at all when halted.
pub open spec fn sys_step_actions(s: System) -> Seq<Action> {
    match s {
        System::Running(b) => seq![Action::DrivePin(PinId::Led, level_for(b.fires@))],
        System::Halted => Seq::empty(),
    }
}

impl System {
    /// One-time bring-up.  With the hardware handles in hand the firmware
    /// comes up running with the setup plan to perform; without them it
    /// halts, and the empty action list shows that no pin is touched on the
    /// way down.
    pub fn boot(hw_ok: bool) -> (r: (System, Vec<Action>))
        ensures
            sys_wf(r.0),
            hw_ok ==> (r.0 matches System::Running(b) && b.fires@ == 0 && b.pin == Level::Low)
                && r.1@ == soft_setup_plan(),
            !hw_ok ==> r.0 is Halted && r.1@ == Seq::<Action>::empty(),
    {
        if hw_ok {
            let (b, plan) = Blinker::new();
            (System::Running(b), plan)
        } else {
            let plan: Vec<Action> = Vec::new();
            proof {
                assert(plan@ =~= Seq::<Action>::empty());
            }
            (System::Halted, plan)
        }
    }

    /// Serve one firing.  A halted firmware ignores it and performs no
    /// action; a running one hands it to the handler.
    pub fn on_fire(&mut self) -> (acts: Vec<Action>)
        requires
            sys_wf(*old(self)),
        ensures
            sys_wf(*final(self)),
            *final(self) == sys_step(*old(self)),
            acts@ == sys_step_actions(*old(self)),
    {
        match self {
            System::Running(b) => b.on_fire(),
            System::Halted => {
                let acts: Vec<Action> = Vec::new();
                proof {
                    assert(acts@ =~= Seq::<Action>::empty());
                }
                acts
            },
        }
    }
}

/// The firmware after `n` firings.
pub open spec fn sys_run(s: System, n: nat) -> System
    decreases n,
{
    if n == 0 {
        s
    } else {
        sys_step(sys_run(s, (n - 1) as nat))
    }
}

/// Every hardware action the firmware performs over `n` firings, in order.
pub open spec fn sys_trace(s: System, n: nat) -> Seq<Action>
    decreases n,
{
    if n == 0 {
        Seq::empty()
    } else {
        sys_trace(s, (n - 1) as nat) + sys_step_actions(sys_run(s, (n - 1) as nat))
    }
}

/// A firmware that halted at bring-up stays halted and performs no action
/// at all, however many firings are requested: it never drives the pin, so
/// the LED keeps its power-on state for ever.
pub proof fn lemma_halted_drives_no_pin(n: nat)
    ensures
        sys_run(System::Halted, n) == System::Halted,
        sys_trace(System::Halted, n) =~= Seq::<Action>::empty(),
        leaves_pins_alone(sys_trace(System::Halted, n)),
    decreases n,
{
    if n > 0 {
        lemma_halted_drives_no_pin((n - 1) as nat);
    }
}

} // verus!
