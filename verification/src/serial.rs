//! USART0 serial link for the ATmega328P.
//!
//! The link carries decimal ASCII text. The functions here compute the
//! register writes that configure USART0, test its status bits, and append
//! the bytes of a transmission to a transmit buffer; the firmware moves the
//! buffered bytes to the data register one at a time.

use crate::register::RegisterWrite;
use vstd::prelude::*;

verus! {

/// The CPU clock frequency in hertz.
pub const CPU_HZ: u32 = 16_000_000;

/// USART0 control and status register A.
pub const UCSR0A: u16 = 0xC0;
/// USART0 control and status register B.
pub const UCSR0B: u16 = 0xC1;
/// USART0 control and status register C.
pub const UCSR0C: u16 = 0xC2;
/// USART0 baud rate register, low byte.
pub const UBRR0L: u16 = 0xC4;
/// USART0 baud rate register, high byte.
pub const UBRR0H: u16 = 0xC5;
/// USART0 data register.
pub const UDR0: u16 = 0xC6;

/// Data register empty flag in UCSR0A.
pub const UDRE0: u8 = 0x20;
/// Transmitter enable bit in UCSR0B.
pub const TXEN0: u8 = 0x08;
/// Character size bit 1 in UCSR0C.
pub const UCSZ01: u8 = 0x04;
/// Character size bit 0 in UCSR0C.
pub const UCSZ00: u8 = 0x02;
/// Receive complete flag in UCSR0A.
pub const RXC0: u8 = 0x80;
/// Receiver enable bit in UCSR0B.
pub const RXEN0: u8 = 0x10;

/// The ASCII code of the decimal digit `d`.
pub open spec fn ascii_digit(d: nat) -> u8 {
    (48 + d) as u8
}

/// The decimal ASCII digits of `n`, most significant first, with no leading
/// zeros; zero is the single digit `0`.
pub open spec fn decimal_ascii(n: nat) -> Seq<u8>
    decreases n,
{
    if n < 10 {
        seq![ascii_digit(n)]
    } else {
        decimal_ascii(n / 10).push(ascii_digit(n % 10))
    }
}

/// The decimal ASCII text of `n`: a minus sign before the digits of a
/// negative number.
pub open spec fn signed_decimal_ascii(n: int) -> Seq<u8> {
    if n < 0 {
        seq![45u8] + decimal_ascii((-n) as nat)
    } else {
        decimal_ascii(n as nat)
    }
}

/// Ten to the power `k`.
pub open spec fn pow10(k: nat) -> nat
    decreases k,
{
    if k == 0 {
        1
    } else {
        10 * pow10((k - 1) as nat)
    }
}

/// The UBRR0 divisor that gives `baud` with the 16-times oversampling of
/// normal-speed asynchronous mode.
pub open spec fn baud_divisor(baud: u32) -> int {
    CPU_HZ as int / (16 * baud as int) - 1
}

/// The baud rates USART0 can be configured for: the divisor is defined and
/// fits the 12-bit UBRR0 register.
pub open spec fn baud_supported(baud: u32) -> bool {
    &&& baud > 0
    &&& 16 * baud <= CPU_HZ
    &&& baud_divisor(baud) <= 0x0FFF
}

/// The number that decimal ASCII digits spell, most significant first.
pub open spec fn decimal_value(digits: Seq<u8>) -> nat
    decreases digits.len(),
{
    if digits.len() == 0 {
        0
    } else {
        decimal_value(digits.drop_last()) * 10 + (digits.last() - 48) as nat
    }
}

/// The decimal text of a number consists of ASCII digits without a leading
/// zero, except for zero itself, and reads back as the number.
pub proof fn lemma_decimal_round_trip(n: nat)
    ensures
        decimal_ascii(n).len() > 0,
        forall|i: int|
            0 <= i < decimal_ascii(n).len() ==> 48 <= #[trigger] decimal_ascii(n)[i] <= 57,
        n > 0 ==> decimal_ascii(n)[0] != 48,
        decimal_value(decimal_ascii(n)) == n,
    decreases n,
{
    if n >= 10 {
        lemma_decimal_round_trip(n / 10);
        let digits = decimal_ascii(n);
        assert(digits.drop_last() =~= decimal_ascii(n / 10));
        assert(digits[0] == decimal_ascii(n / 10)[0]);
        assert(digits.last() == 48 + n % 10);
        assert((n / 10) * 10 + n % 10 == n) by (nonlinear_arith);
        assert(decimal_value(digits) == decimal_value(decimal_ascii(n / 10)) * 10 + n % 10);
    } else {
        let digits = decimal_ascii(n);
        assert(digits.drop_last() =~= Seq::<u8>::empty());
        assert(decimal_value(digits.drop_last()) == 0);
        assert(digits.last() == 48 + n);
    }
}

/// Nonempty text of ASCII decimal digits.
pub open spec fn is_decimal_text(text: Seq<u8>) -> bool {
    &&& text.len() > 0
    &&& forall|i: int| 0 <= i < text.len() ==> 48 <= #[trigger] text[i] <= 57
}

/// Decimal digits, or a minus sign followed by decimal digits.
pub open spec fn is_signed_decimal_text(text: Seq<u8>) -> bool {
    if text.len() > 0 && text[0] == 45 {
        is_decimal_text(text.drop_first())
    } else {
        is_decimal_text(text)
    }
}

/// The integer that signed decimal text spells.
pub open spec fn signed_decimal_value(text: Seq<u8>) -> int {
    if text.len() > 0 && text[0] == 45 {
        -(decimal_value(text.drop_first()) as int)
    } else {
        decimal_value(text) as int
    }
}

/// The signed decimal text of an integer reads back as that integer.
pub proof fn lemma_signed_decimal_round_trip(n: int)
    ensures
        is_signed_decimal_text(signed_decimal_ascii(n)),
        signed_decimal_value(signed_decimal_ascii(n)) == n,
{
    if n < 0 {
        let digits = decimal_ascii((-n) as nat);
        lemma_decimal_round_trip((-n) as nat);
        assert((seq![45u8] + digits).drop_first() =~= digits);
    } else {
        lemma_decimal_round_trip(n as nat);
    }
}

/// The ATmega328P USART0 peripheral.
pub struct Usart0;

impl Default for Usart0 {
    /// Creates a Usart0 peripheral handle, as [`Self::new`] does.
    fn default() -> (handle: Self)
        ensures
            handle == Usart0,
    {
        Self::new()
    }
}

impl Usart0 {
    /// Creates a USART0 peripheral handle.
    pub fn new() -> (usart: Self)
        ensures
            usart == Usart0,
    {
        Self
    }

    /// Whether USART0 can be configured for `baud`: the rate is not zero and
    /// its divisor is defined and fits the 12-bit UBRR0 register.
    pub fn supports_baud(&self, baud: u32) -> (supported: bool)
        ensures
            supported == baud_supported(baud),
    {
        if baud == 0 || baud > CPU_HZ / 16 {
            return false;
        }
        let scaled: u32 = 16 * baud;
        assert(CPU_HZ / scaled >= 1) by (nonlinear_arith)
            requires
                0 < scaled <= CPU_HZ,
        ;
        CPU_HZ / scaled - 1 <= 0x0FFF
    }

    /// The register writes, in order, that configure USART0 for `baud` with
    /// 8N1 framing: normal speed, the baud divisor high byte before the low
    /// byte, receiver and transmitter enabled, eight data bits, no parity and
    /// one stop bit.
    pub fn configure(&self, baud: u32) -> (writes: [RegisterWrite; 5])
        requires
            baud_supported(baud),
        ensures
            writes@ == seq![
                RegisterWrite { address: UCSR0A, value: 0 },
                RegisterWrite { address: UBRR0H, value: (baud_divisor(baud) / 256) as u8 },
                RegisterWrite { address: UBRR0L, value: (baud_divisor(baud) % 256) as u8 },
                RegisterWrite { address: UCSR0B, value: RXEN0 | TXEN0 },
                RegisterWrite { address: UCSR0C, value: UCSZ01 | UCSZ00 },
            ],
    {
        let scaled: u32 = 16 * baud;
        assert(CPU_HZ / scaled >= 1) by (nonlinear_arith)
            requires
                0 < scaled <= CPU_HZ,
        ;
        let divisor: u32 = CPU_HZ / scaled - 1;
        let high: u8 = (divisor / 256) as u8;
        let low: u8 = (divisor % 256) as u8;
        let writes = [
            RegisterWrite { address: UCSR0A, value: 0 },
            RegisterWrite { address: UBRR0H, value: high },
            RegisterWrite { address: UBRR0L, value: low },
            RegisterWrite { address: UCSR0B, value: RXEN0 | TXEN0 },
            RegisterWrite { address: UCSR0C, value: UCSZ01 | UCSZ00 },
        ];
        assert(writes@ =~= seq![
            RegisterWrite { address: UCSR0A, value: 0 },
            RegisterWrite { address: UBRR0H, value: (baud_divisor(baud) / 256) as u8 },
            RegisterWrite { address: UBRR0L, value: (baud_divisor(baud) % 256) as u8 },
            RegisterWrite { address: UCSR0B, value: RXEN0 | TXEN0 },
            RegisterWrite { address: UCSR0C, value: UCSZ01 | UCSZ00 },
        ]);
        writes
    }

    /// Whether the transmit data register can take a byte, given UCSR0A.
    pub fn transmit_ready(&self, status: u8) -> (ready: bool)
        ensures
            ready == (status & UDRE0 != 0),
    {
        status & UDRE0 != 0
    }

    /// Whether a received byte waits in the data register, given UCSR0A.
    pub fn byte_received(&self, status: u8) -> (received: bool)
        ensures
            received == (status & RXC0 != 0),
    {
        status & RXC0 != 0
    }

    /// Appends one byte to the transmission.
    pub fn write_byte(&self, tx: &mut Vec<u8>, byte: u8)
        ensures
            final(tx)@ == old(tx)@.push(byte),
    {
        tx.push(byte);
    }

    /// Appends every byte in a slice to the transmission.
    pub fn write_bytes(&self, tx: &mut Vec<u8>, bytes: &[u8])
        ensures
            final(tx)@ == old(tx)@ + bytes@,
    {
        let ghost start = tx@;
        for i in 0..bytes.len()
            invariant
                tx@ == start + bytes@.take(i as int),
        {
            self.write_byte(tx, bytes[i]);
            assert(start + bytes@.take(i + 1) =~= (start + bytes@.take(i as int)).push(bytes[i as int]));
        }
        assert(bytes@.take(bytes.len() as int) =~= bytes@);
    }

    /// Appends `value` as decimal ASCII digits to the transmission.
    pub fn write_u32(&self, tx: &mut Vec<u8>, value: u32)
        ensures
            final(tx)@ == old(tx)@ + decimal_ascii(value as nat),
    {
        if value == 0 {
            self.write_byte(tx, 48u8);
            assert(seq![48u8] =~= decimal_ascii(0));
            return;
        }
        let mut digits = [0u8; 10];
        let mut index: usize = 10;
        let mut rest: u32 = value;
        proof {
            reveal_with_fuel(pow10, 11);
            assert(pow10(10) == 10000000000);
        }
        while rest > 0
            invariant
                index <= 10,
                rest < pow10(index as nat),
                rest > 0 ==> decimal_ascii(value as nat) == decimal_ascii(rest as nat)
                    + digits@.subrange(index as int, 10),
                rest == 0 ==> decimal_ascii(value as nat) == digits@.subrange(index as int, 10),
                digits@.len() == 10,
            decreases rest,
        {
            assert(index > 0);
            let ghost old_digits = digits@;
            let ghost old_index = index;
            let ghost old_rest = rest;
            assert(rest / 10 < pow10((index - 1) as nat)) by (nonlinear_arith)
                requires
                    rest < pow10(index as nat),
                    pow10(index as nat) == 10 * pow10((index - 1) as nat),
            ;
            index -= 1;
            digits[index] = 48u8 + (rest % 10) as u8;
            rest = rest / 10;
            assert(digits@.subrange(index as int, 10) =~= seq![ascii_digit((old_rest % 10) as nat)]
                + old_digits.subrange(old_index as int, 10));
            if rest > 0 {
                assert(decimal_ascii(old_rest as nat) == decimal_ascii(rest as nat).push(
                    ascii_digit((old_rest % 10) as nat),
                ));
                assert(decimal_ascii(rest as nat) + digits@.subrange(index as int, 10)
                    =~= decimal_ascii(rest as nat).push(ascii_digit((old_rest % 10) as nat))
                    + old_digits.subrange(old_index as int, 10));
            } else {
                assert(decimal_ascii(old_rest as nat) == seq![ascii_digit(old_rest as nat)]);
            }
        }
        let ghost start = tx@;
        for i in index..10
            invariant
                index <= i <= 10,
                digits@.len() == 10,
                tx@ == start + digits@.subrange(index as int, i as int),
        {
            self.write_byte(tx, digits[i]);
            assert(start + digits@.subrange(index as int, i + 1) =~= (start
                + digits@.subrange(index as int, i as int)).push(digits[i as int]));
        }
    }

    /// Appends `value` as decimal ASCII text to the transmission, with a
    /// leading minus sign when it is negative.
    pub fn write_i32(&self, tx: &mut Vec<u8>, value: i32)
        ensures
            final(tx)@ == old(tx)@ + signed_decimal_ascii(value as int),
    {
        if value == 0 {
            self.write_byte(tx, 48u8);
            assert(seq![48u8] =~= decimal_ascii(0));
            return;
        }
        if value < 0 {
            self.write_byte(tx, 45u8);
            let magnitude: u32 = (-(value as i64)) as u32;
            self.write_u32(tx, magnitude);
            assert(old(tx)@.push(45u8) + decimal_ascii(magnitude as nat) =~= old(tx)@ + (seq![45u8]
                + decimal_ascii(magnitude as nat)));
        } else {
            self.write_u32(tx, value as u32);
        }
    }
}

} // verus!
