use blinky::action::{Action, TimerId};
use blinky::pin::Level::{High, Low};
use blinky::pin::{Level, PinId};
use blinky::soft_timer::{idle_cycle, Blinker, System, FIRE_DELAY_MS, PATTERN_PERIOD};

#[test]
fn bring_up_unmasks_and_drives_low() {
    let (b, plan) = Blinker::new();
    assert_eq!(
        plan,
        vec![
            Action::UnmaskLine(TimerId::Tc3),
            Action::DrivePin(PinId::Led, Level::Low),
        ]
    );
    assert_eq!(b.pin, Level::Low);
    assert_eq!(b.counter, 0);
}

#[test]
fn one_high_out_of_every_five_firings() {
    let (mut b, _) = Blinker::new();
    let mut levels = Vec::new();
    for _ in 0..11 {
        let acts = b.on_fire();
        assert_eq!(acts.len(), 1);
        assert_eq!(acts[0], Action::DrivePin(PinId::Led, b.pin));
        levels.push(b.pin);
    }
    assert_eq!(
        levels,
        vec![High, Low, Low, Low, Low, High, Low, Low, Low, Low, High]
    );
}

#[test]
fn counter_wraps_within_the_period() {
    let (mut b, _) = Blinker::new();
    for i in 0u32..23 {
        b.on_fire();
        assert_eq!(b.counter, (i + 1) % PATTERN_PERIOD);
    }
}

#[test]
fn idle_pass_requests_exactly_one_firing() {
    let acts = idle_cycle();
    assert_eq!(
        acts,
        vec![
            Action::DelayMs(FIRE_DELAY_MS),
            Action::PendLine(TimerId::Tc3),
        ]
    );
    let pends = acts
        .iter()
        .filter(|a| matches!(a, Action::PendLine(_)))
        .count();
    assert_eq!(pends, 1);
}

#[test]
fn failed_boot_never_touches_the_pin() {
    let (mut s, plan) = System::boot(false);
    assert!(matches!(s, System::Halted));
    assert!(plan.is_empty());
    for _ in 0..10 {
        let acts = s.on_fire();
        assert!(acts.is_empty());
        assert!(matches!(s, System::Halted));
    }
}

#[test]
fn successful_boot_starts_before_the_first_firing() {
    let (mut s, plan) = System::boot(true);
    assert_eq!(plan.len(), 2);
    match &mut s {
        System::Running(b) => {
            assert_eq!(b.pin, Level::Low);
            let acts = b.on_fire();
            assert_eq!(acts, vec![Action::DrivePin(PinId::Led, Level::High)]);
        }
        System::Halted => panic!("boot with handles in hand must not halt"),
    }
}

#[test]
fn toggling_twice_restores_the_level() {
    assert_eq!(Level::High.toggled().toggled(), Level::High);
    assert_eq!(Level::Low.toggled(), Level::High);
}
