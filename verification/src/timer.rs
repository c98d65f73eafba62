//! Timer1, the ATmega328P's 16-bit timer.
//!
//! The functions here compute the register writes that configure Timer1 for
//! clear-timer-on-compare (CTC) mode, enable its interrupts, select the
//! input-capture edge, and assemble a captured count; the firmware performs
//! the register accesses.

use crate::register::RegisterWrite;
use vstd::prelude::*;

verus! {

/// Timer1 control register A.
pub const TCCR1A: u16 = 0x80;
/// Timer1 control register B.
pub const TCCR1B: u16 = 0x81;
/// Timer1 output compare register A, low byte.
pub const OCR1AL: u16 = 0x88;
/// Timer1 output compare register A, high byte.
pub const OCR1AH: u16 = 0x89;
/// Timer1 interrupt flag register.
pub const TIFR1: u16 = 0x36;
/// Timer1 interrupt mask register.
pub const TIMSK1: u16 = 0x6F;
/// Timer1 input capture register, low byte.
pub const ICR1L: u16 = 0x86;
/// Timer1 input capture register, high byte.
pub const ICR1H: u16 = 0x87;

/// Waveform generation mode bit 2 in TCCR1B: CTC mode with OCR1A as top.
pub const WGM12: u8 = 0x08;
/// Output compare A match flag in TIFR1.
pub const OCF1A: u8 = 0x02;
/// Output compare A match interrupt enable in TIMSK1.
pub const OCIE1A: u8 = 0x02;
/// Input capture edge select in TCCR1B: set for a rising edge.
pub const ICES1: u8 = 0x40;
/// Input capture flag in TIFR1.
pub const ICF1: u8 = 0x20;
/// Input capture interrupt enable in TIMSK1.
pub const ICIE1: u8 = 0x20;

/// Timer clock prescaler.
#[derive(Clone, Copy, Debug, PartialEq, Eq, Structural)]
pub enum Prescaler {
    /// Runs the timer at the full CPU clock rate.
    Div1,
    /// Divides the CPU clock by 8.
    Div8,
    /// Divides the CPU clock by 64.
    Div64,
    /// Divides the CPU clock by 256.
    Div256,
    /// Divides the CPU clock by 1024.
    Div1024,
}

/// The clock-select bits of TCCR1B that choose the prescaler.
pub open spec fn prescaler_bits(prescaler: Prescaler) -> u8 {
    match prescaler {
        Prescaler::Div1 => 0b001,
        Prescaler::Div8 => 0b010,
        Prescaler::Div64 => 0b011,
        Prescaler::Div256 => 0b100,
        Prescaler::Div1024 => 0b101,
    }
}

/// The clock-select values of TCCR1B: 1 for no division, then 2, 3, 4 and 5
/// for division by 8, 64, 256 and 1024.
pub proof fn lemma_prescaler_bits()
    ensures
        prescaler_bits(Prescaler::Div1) == 1,
        prescaler_bits(Prescaler::Div8) == 2,
        prescaler_bits(Prescaler::Div64) == 3,
        prescaler_bits(Prescaler::Div256) == 4,
        prescaler_bits(Prescaler::Div1024) == 5,
{
}

impl Prescaler {
    /// The clock-select bits of TCCR1B that choose this prescaler.
    pub fn bits(self) -> (bits: u8)
        ensures
            bits == prescaler_bits(self),
    {
        match self {
            Prescaler::Div1 => 0b001,
            Prescaler::Div8 => 0b010,
            Prescaler::Div64 => 0b011,
            Prescaler::Div256 => 0b100,
            Prescaler::Div1024 => 0b101,
        }
    }
}

/// The ATmega328P 16-bit Timer1 peripheral.
pub struct Timer1;

impl Default for Timer1 {
    /// Creates a Timer1 peripheral handle, as [`Self::new`] does.
    fn default() -> (handle: Self)
        ensures
            handle == Timer1,
    {
        Self::new()
    }
}

impl Timer1 {
    /// Creates a Timer1 peripheral handle.
    pub fn new() -> (timer: Self)
        ensures
            timer == Timer1,
    {
        Self
    }

    /// The writes, in order, that configure Timer1 for CTC mode with top
    /// value `compare` without starting it: both control registers cleared,
    /// the compare value's high byte before its low byte, as the 16-bit
    /// register requires, and a pending compare match cleared.
    pub fn configure_ctc(&self, compare: u16) -> (writes: [RegisterWrite; 5])
        ensures
            writes@ == seq![
                RegisterWrite { address: TCCR1A, value: 0 },
                RegisterWrite { address: TCCR1B, value: 0 },
                RegisterWrite { address: OCR1AH, value: (compare / 256) as u8 },
                RegisterWrite { address: OCR1AL, value: (compare % 256) as u8 },
                RegisterWrite { address: TIFR1, value: OCF1A },
            ],
    {
        let high = (compare >> 8) as u8;
        let low = compare as u8;
        assert(high == compare / 256 && low == compare % 256) by (bit_vector)
            requires
                high == (compare >> 8) as u8,
                low == compare as u8,
        ;
        let writes = [
            RegisterWrite { address: TCCR1A, value: 0 },
            RegisterWrite { address: TCCR1B, value: 0 },
            RegisterWrite { address: OCR1AH, value: high },
            RegisterWrite { address: OCR1AL, value: low },
            RegisterWrite { address: TIFR1, value: OCF1A },
        ];
        assert(writes@ =~= seq![
            RegisterWrite { address: TCCR1A, value: 0 },
            RegisterWrite { address: TCCR1B, value: 0 },
            RegisterWrite { address: OCR1AH, value: (compare / 256) as u8 },
            RegisterWrite { address: OCR1AL, value: (compare % 256) as u8 },
            RegisterWrite { address: TIFR1, value: OCF1A },
        ]);
        writes
    }

    /// The write that enables the compare A interrupt, given the current
    /// TIMSK1 value.
    pub fn enable_compare_a_interrupt(&self, mask: u8) -> (write: RegisterWrite)
        ensures
            write == (RegisterWrite { address: TIMSK1, value: mask | OCIE1A }),
    {
        RegisterWrite { address: TIMSK1, value: mask | OCIE1A }
    }

    /// The write that starts Timer1 in CTC mode with the given prescaler.
    pub fn start(&self, prescaler: Prescaler) -> (write: RegisterWrite)
        ensures
            write == (RegisterWrite { address: TCCR1B, value: WGM12 | prescaler_bits(prescaler) }),
    {
        RegisterWrite { address: TCCR1B, value: WGM12 | prescaler.bits() }
    }

    /// The writes, in order, that enable the input-capture interrupt, given
    /// the current TIMSK1 value: a capture left from before configuration is
    /// cleared first.
    pub fn enable_input_capture_interrupt(&self, mask: u8) -> (writes: [RegisterWrite; 2])
        ensures
            writes@ == seq![
                RegisterWrite { address: TIFR1, value: ICF1 },
                RegisterWrite { address: TIMSK1, value: mask | ICIE1 },
            ],
    {
        let writes = [
            RegisterWrite { address: TIFR1, value: ICF1 },
            RegisterWrite { address: TIMSK1, value: mask | ICIE1 },
        ];
        assert(writes@ =~= seq![
            RegisterWrite { address: TIFR1, value: ICF1 },
            RegisterWrite { address: TIMSK1, value: mask | ICIE1 },
        ]);
        writes
    }

    /// The write that makes input capture detect a rising edge, given the
    /// current TCCR1B value.
    pub fn capture_rising_edge(&self, control: u8) -> (write: RegisterWrite)
        ensures
            write == (RegisterWrite { address: TCCR1B, value: control | ICES1 }),
    {
        RegisterWrite { address: TCCR1B, value: control | ICES1 }
    }

    /// The write that makes input capture detect a falling edge, given the
    /// current TCCR1B value.
    pub fn capture_falling_edge(&self, control: u8) -> (write: RegisterWrite)
        ensures
            write == (RegisterWrite { address: TCCR1B, value: control & !ICES1 }),
    {
        RegisterWrite { address: TCCR1B, value: control & !ICES1 }
    }

    /// The counter value of the latest input capture from the ICR1L and
    /// ICR1H values; reading the low byte first locks the 16-bit value.
    pub fn captured_value(&self, low: u8, high: u8) -> (value: u16)
        ensures
            value == high as int * 256 + low as int,
    {
        let value = ((high as u16) << 8) | (low as u16);
        assert(value == high as u16 * 256 + low as u16) by (bit_vector)
            requires
                value == ((high as u16) << 8) | (low as u16),
        ;
        value
    }
}

} // verus!
