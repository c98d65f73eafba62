use uno_systems_lab::adc::{Adc, Channel};
use uno_systems_lab::gpio::board;
use uno_systems_lab::gpio::{Input, Output, Pin, PinId, Port, Pull};
use uno_systems_lab::register::RegisterWrite;
use uno_systems_lab::timer::{Prescaler, Timer1};

#[test]
fn port_registers() {
    assert_eq!(Port::B.pin_register(), 0x23);
    assert_eq!(Port::B.direction_register(), 0x24);
    assert_eq!(Port::B.output_register(), 0x25);
    assert_eq!(Port::C.pin_register(), 0x26);
    assert_eq!(Port::C.direction_register(), 0x27);
    assert_eq!(Port::C.output_register(), 0x28);
    assert_eq!(Port::D.pin_register(), 0x29);
    assert_eq!(Port::D.direction_register(), 0x2A);
    assert_eq!(Port::D.output_register(), 0x2B);
}

#[test]
fn uno_pin_mapping() {
    let digital = [
        board::d0(),
        board::d1(),
        board::d2(),
        board::d3(),
        board::d4(),
        board::d5(),
        board::d6(),
        board::d7(),
    ];
    for (bit, id) in digital.iter().enumerate() {
        assert_eq!(id.port(), Port::D);
        assert_eq!(id.bit() as usize, bit);
    }
    let high = [board::d8(), board::d9(), board::d10(), board::d11(), board::d12(), board::d13()];
    for (bit, id) in high.iter().enumerate() {
        assert_eq!(id.port(), Port::B);
        assert_eq!(id.bit() as usize, bit);
    }
    let analog = [board::a0(), board::a1(), board::a2(), board::a3(), board::a4(), board::a5()];
    for (bit, id) in analog.iter().enumerate() {
        assert_eq!(id.port(), Port::C);
        assert_eq!(id.bit() as usize, bit);
    }
}

#[test]
fn pin_masks() {
    assert_eq!(PinId::new(Port::B, 0).mask(), 0x01);
    assert_eq!(PinId::new(Port::B, 5).mask(), 0x20);
    assert_eq!(PinId::new(Port::D, 7).mask(), 0x80);
}

#[test]
fn output_pin_writes_change_only_its_bit() {
    let led = Pin::<Output>::new(board::d13());
    assert_eq!(led.configure(0x01), RegisterWrite { address: 0x24, value: 0x21 });
    assert_eq!(led.set_high(0x00), RegisterWrite { address: 0x25, value: 0x20 });
    assert_eq!(led.set_high(0x20), RegisterWrite { address: 0x25, value: 0x20 });
    assert_eq!(led.set_low(0xFF), RegisterWrite { address: 0x25, value: 0xDF });
    assert_eq!(led.set(0x0F, true), RegisterWrite { address: 0x25, value: 0x2F });
    assert_eq!(led.set(0x2F, false), RegisterWrite { address: 0x25, value: 0x0F });

    let external = Pin::<Output>::new(board::d7());
    assert_eq!(external.set_high(0x03), RegisterWrite { address: 0x2B, value: 0x83 });
}

#[test]
fn input_pin_configuration_and_levels() {
    let button = Pin::<Input>::new(board::d12());
    assert_eq!(
        button.configure(0xFF, 0x00, Pull::Up),
        (
            RegisterWrite { address: 0x24, value: 0xEF },
            RegisterWrite { address: 0x25, value: 0x10 },
        )
    );
    assert_eq!(
        button.configure(0x10, 0xFF, Pull::Floating),
        (
            RegisterWrite { address: 0x24, value: 0x00 },
            RegisterWrite { address: 0x25, value: 0xEF },
        )
    );
    assert!(button.is_low(0xEF));
    assert!(!button.is_high(0xEF));
    assert!(button.is_high(0x10));
    assert!(!button.is_low(0x10));
    assert_eq!(button.id().port(), Port::B);
}

#[test]
fn adc_register_values() {
    let adc = Adc::new();
    assert_eq!(
        adc.configure(),
        [
            RegisterWrite { address: 0x7C, value: 0x40 },
            RegisterWrite { address: 0x7A, value: 0x87 },
        ]
    );
    assert_eq!(adc.select_channel(0x4F, Channel::Adc1), RegisterWrite { address: 0x7C, value: 0x41 });
    assert_eq!(adc.select_channel(0x40, Channel::Adc5), RegisterWrite { address: 0x7C, value: 0x45 });
    assert_eq!(adc.start_conversion(0x87), RegisterWrite { address: 0x7A, value: 0xC7 });
    assert!(!adc.conversion_complete(0xC7));
    assert!(adc.conversion_complete(0x87));
    assert_eq!(adc.conversion_result(0xFF, 0x03), 1023);
    assert_eq!(adc.conversion_result(0x00, 0x00), 0);
    assert_eq!(Channel::Adc3.bits(), 3);
}

#[test]
fn timer_register_values() {
    let timer = Timer1::default();
    assert_eq!(
        timer.configure_ctc(2_499),
        [
            RegisterWrite { address: 0x80, value: 0 },
            RegisterWrite { address: 0x81, value: 0 },
            RegisterWrite { address: 0x89, value: 0x09 },
            RegisterWrite { address: 0x88, value: 0xC3 },
            RegisterWrite { address: 0x36, value: 0x02 },
        ]
    );
    assert_eq!(timer.start(Prescaler::Div64), RegisterWrite { address: 0x81, value: 0x0B });
    assert_eq!(timer.start(Prescaler::Div1024), RegisterWrite { address: 0x81, value: 0x0D });
    assert_eq!(timer.enable_compare_a_interrupt(0x20), RegisterWrite { address: 0x6F, value: 0x22 });
    assert_eq!(
        timer.enable_input_capture_interrupt(0x02),
        [
            RegisterWrite { address: 0x36, value: 0x20 },
            RegisterWrite { address: 0x6F, value: 0x22 },
        ]
    );
    assert_eq!(timer.capture_rising_edge(0x0B), RegisterWrite { address: 0x81, value: 0x4B });
    assert_eq!(timer.capture_falling_edge(0x4B), RegisterWrite { address: 0x81, value: 0x0B });
    assert_eq!(timer.captured_value(0x34, 0x12), 0x1234);
    assert_eq!(Prescaler::Div1.bits(), 1);
    assert_eq!(Prescaler::Div8.bits(), 2);
    assert_eq!(Prescaler::Div256.bits(), 4);
}
