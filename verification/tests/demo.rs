use uno_systems_lab::debounce::Debouncer;
use uno_systems_lab::demo::{heartbeat_phase, DemoLedBehavior, DemoTicker, LedStep};
use uno_systems_lab::events::{BinaryInputId, BinaryState, DeviceEvent, TimestampedEvent};

#[test]
fn behaviors_cycle_and_round_trip() {
    let start = DemoLedBehavior::Heartbeat;
    assert_eq!(start.next(), DemoLedBehavior::SolidOn);
    assert_eq!(start.next().next(), DemoLedBehavior::Off);
    assert_eq!(start.next().next().next(), start);
    for behavior in [DemoLedBehavior::Heartbeat, DemoLedBehavior::SolidOn, DemoLedBehavior::Off] {
        assert_eq!(DemoLedBehavior::from_u8(behavior.to_u8()), behavior);
    }
    assert_eq!(DemoLedBehavior::from_u8(1), DemoLedBehavior::SolidOn);
    assert_eq!(DemoLedBehavior::from_u8(2), DemoLedBehavior::Off);
    assert_eq!(DemoLedBehavior::from_u8(3), DemoLedBehavior::Heartbeat);
    assert_eq!(DemoLedBehavior::from_u8(200), DemoLedBehavior::Heartbeat);
}

#[test]
fn heartbeat_blinks_twice_per_hundred_ticks() {
    let mut phase = 0u8;
    let mut lit = Vec::new();
    for _ in 0..100 {
        let step = heartbeat_phase(DemoLedBehavior::Heartbeat, phase);
        lit.push(step.led_high);
        phase = step.phase;
    }
    assert_eq!(phase, 0);
    for (tick, on) in lit.iter().enumerate() {
        assert_eq!(*on, tick < 10 || (20..30).contains(&tick));
    }
    assert_eq!(
        heartbeat_phase(DemoLedBehavior::Heartbeat, 99),
        LedStep { led_high: false, phase: 0 }
    );
    assert_eq!(
        heartbeat_phase(DemoLedBehavior::SolidOn, 42),
        LedStep { led_high: true, phase: 42 }
    );
    assert_eq!(
        heartbeat_phase(DemoLedBehavior::Off, 42),
        LedStep { led_high: false, phase: 42 }
    );
}

#[test]
fn a_press_changes_behavior_and_is_reported() {
    let mut button = Debouncer::new(3);
    button.initialize(false);
    let mut demo = DemoTicker {
        uptime: 0,
        button,
        behavior: DemoLedBehavior::Heartbeat,
        phase: 55,
    };
    let input = BinaryInputId(1);

    let first = demo.tick(true, input);
    assert_eq!(first.ticks, 1);
    assert_eq!(first.event, None);
    assert!(!first.led_high);
    assert_eq!(demo.phase, 56);

    demo.tick(true, input);
    let pressed = demo.tick(true, input);
    assert_eq!(
        pressed.event,
        Some(TimestampedEvent {
            ticks: 3,
            event: DeviceEvent::BinaryInputChanged {
                input,
                state: BinaryState::Active,
            },
        })
    );
    assert_eq!(demo.behavior, DemoLedBehavior::SolidOn);
    assert!(pressed.led_high);
    assert_eq!(demo.phase, 0);

    demo.tick(false, input);
    demo.tick(false, input);
    let released = demo.tick(false, input);
    assert_eq!(
        released.event,
        Some(TimestampedEvent {
            ticks: 6,
            event: DeviceEvent::BinaryInputChanged {
                input,
                state: BinaryState::Inactive,
            },
        })
    );
    assert_eq!(demo.behavior, DemoLedBehavior::SolidOn);
    assert_eq!(demo.uptime, 6);
}

#[test]
fn uptime_wraps() {
    let mut demo = DemoTicker {
        uptime: u32::MAX,
        button: Debouncer::new(1),
        behavior: DemoLedBehavior::Off,
        phase: 0,
    };
    let outcome = demo.tick(false, BinaryInputId(1));
    assert_eq!(outcome.ticks, 0);
    assert_eq!(outcome.event, None);
    assert!(!outcome.led_high);
}
