use blinky::action::{Action, TimerId};
use blinky::dual_timer::{Event, Machine, System, TC3_HZ, TC3_PRIORITY, TC4_HZ, TC4_PRIORITY};
use blinky::pin::{Level, PinId};

#[test]
fn setup_plan_order() {
    let (m, plan) = Machine::new();
    assert_eq!(
        plan,
        vec![
            Action::UnmaskLine(TimerId::Tc3),
            Action::UnmaskLine(TimerId::Tc4),
            Action::SetPriority(TimerId::Tc3, 1),
            Action::SetPriority(TimerId::Tc4, 2),
            Action::DrivePin(PinId::Led, Level::Low),
            Action::DrivePin(PinId::ExtLed, Level::Low),
            Action::StartTimer(TimerId::Tc3, 2),
            Action::EnableInterrupt(TimerId::Tc3),
            Action::StartTimer(TimerId::Tc4, 10),
            Action::EnableInterrupt(TimerId::Tc4),
        ]
    );
    assert_eq!(m.led, Level::Low);
    assert_eq!(m.ext_led, Level::Low);
    assert!(m.tc3_armed);
    assert!(m.tc4_armed);
}

#[test]
fn configured_rates_and_priorities() {
    assert_eq!(TC3_HZ, 2);
    assert_eq!(TC4_HZ, 10);
    assert_eq!(TC3_PRIORITY, 1);
    assert_eq!(TC4_PRIORITY, 2);
}

#[test]
fn tc3_toggles_its_led_only() {
    let (mut m, _) = Machine::new();
    let acts = m.on_tc3();
    assert_eq!(m.led, Level::High);
    assert_eq!(m.ext_led, Level::Low);
    assert_eq!(
        acts,
        vec![
            Action::DrivePin(PinId::Led, Level::High),
            Action::AckTimer(TimerId::Tc3),
        ]
    );
}

#[test]
fn tc4_toggles_its_led_only() {
    let (mut m, _) = Machine::new();
    let acts = m.on_tc4();
    assert_eq!(m.ext_led, Level::High);
    assert_eq!(m.led, Level::Low);
    assert_eq!(
        acts,
        vec![
            Action::DrivePin(PinId::ExtLed, Level::High),
            Action::AckTimer(TimerId::Tc4),
        ]
    );
}

#[test]
fn interleaved_firings_stay_independent() {
    let (mut m, _) = Machine::new();
    let events = [
        Event::Tc3Fired,
        Event::Tc4Fired,
        Event::Tc4Fired,
        Event::Tc3Fired,
        Event::Tc4Fired,
    ];
    for e in events {
        m.on_event(e);
    }
    // TC3 fired twice: its LED is back low.  TC4 fired three times: high.
    assert_eq!(m.led, Level::Low);
    assert_eq!(m.ext_led, Level::High);
}

#[test]
fn every_firing_leaves_the_timer_rearmed() {
    let (mut m, _) = Machine::new();
    for _ in 0..7 {
        let acts = m.on_tc3();
        assert!(m.tc3_armed);
        assert!(m.tc4_armed);
        assert_eq!(acts[1], Action::AckTimer(TimerId::Tc3));
        let acts = m.on_tc4();
        assert!(m.tc3_armed);
        assert!(m.tc4_armed);
        assert_eq!(acts[1], Action::AckTimer(TimerId::Tc4));
    }
}

#[test]
fn successful_boot_runs() {
    let (s, plan) = System::boot(true);
    assert!(matches!(s, System::Running(_)));
    assert_eq!(plan.len(), 10);
}

#[test]
fn failed_boot_never_touches_a_pin() {
    let (mut s, plan) = System::boot(false);
    assert!(matches!(s, System::Halted));
    assert!(plan.is_empty());
    for _ in 0..10 {
        let a3 = s.on_event(Event::Tc3Fired);
        let a4 = s.on_event(Event::Tc4Fired);
        assert!(a3.is_empty());
        assert!(a4.is_empty());
        assert!(matches!(s, System::Halted));
    }
}

#[test]
fn idle_loop_only_parks_the_core() {
    let (m, _) = Machine::new();
    assert_eq!(m.idle_action(), Action::WaitForInterrupt);
}
