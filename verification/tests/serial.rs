use uno_systems_lab::register::RegisterWrite;
use uno_systems_lab::serial::{Usart0, UBRR0H, UBRR0L, UCSR0A, UCSR0B, UCSR0C};

fn text_of_u32(value: u32) -> Vec<u8> {
    let mut tx = Vec::new();
    Usart0::new().write_u32(&mut tx, value);
    tx
}

fn text_of_i32(value: i32) -> Vec<u8> {
    let mut tx = Vec::new();
    Usart0::new().write_i32(&mut tx, value);
    tx
}

#[test]
fn writes_unsigned_decimals() {
    assert_eq!(text_of_u32(0), b"0".to_vec());
    assert_eq!(text_of_u32(7), b"7".to_vec());
    assert_eq!(text_of_u32(10), b"10".to_vec());
    assert_eq!(text_of_u32(1234), b"1234".to_vec());
    assert_eq!(text_of_u32(1_000_000_000), b"1000000000".to_vec());
    assert_eq!(text_of_u32(u32::MAX), b"4294967295".to_vec());
}

#[test]
fn writes_signed_decimals() {
    assert_eq!(text_of_i32(0), b"0".to_vec());
    assert_eq!(text_of_i32(42), b"42".to_vec());
    assert_eq!(text_of_i32(-42), b"-42".to_vec());
    assert_eq!(text_of_i32(i32::MAX), b"2147483647".to_vec());
    assert_eq!(text_of_i32(i32::MIN), b"-2147483648".to_vec());
}

#[test]
fn appends_to_the_transmission() {
    let serial = Usart0::new();
    let mut tx = b"RX:".to_vec();
    serial.write_byte(&mut tx, b'a');
    serial.write_bytes(&mut tx, b"\r\n");
    serial.write_u32(&mut tx, 12);
    serial.write_bytes(&mut tx, &[]);
    assert_eq!(tx, b"RX:a\r\n12".to_vec());
}

#[test]
fn configures_9600_baud_8n1() {
    let writes = Usart0::new().configure(9_600);
    assert_eq!(
        writes,
        [
            RegisterWrite { address: UCSR0A, value: 0 },
            RegisterWrite { address: UBRR0H, value: 0 },
            RegisterWrite { address: UBRR0L, value: 103 },
            RegisterWrite { address: UCSR0B, value: 0x18 },
            RegisterWrite { address: UCSR0C, value: 0x06 },
        ]
    );
}

#[test]
fn configures_slowest_supported_baud() {
    let writes = Usart0::new().configure(245);
    assert_eq!(writes[1], RegisterWrite { address: UBRR0H, value: 0x0F });
    assert_eq!(writes[2], RegisterWrite { address: UBRR0L, value: 0xF0 });
    assert_eq!(writes[0].address, 0xC0);
}

#[test]
fn reads_status_flags() {
    let serial = Usart0::default();
    assert!(serial.transmit_ready(0x20));
    assert!(!serial.transmit_ready(0xDF));
    assert!(serial.byte_received(0x80));
    assert!(!serial.byte_received(0x7F));
}

#[test]
fn supported_baud_rates() {
    let serial = Usart0::new();
    assert!(!serial.supports_baud(0));
    assert!(serial.supports_baud(9_600));
    assert!(serial.supports_baud(245));
    assert!(!serial.supports_baud(244));
    assert!(serial.supports_baud(1_000_000));
    assert!(!serial.supports_baud(1_000_001));
    assert!(!serial.supports_baud(u32::MAX));
}
