//! Analog-to-digital conversion for the ATmega328P.
//!
//! A conversion selects a channel in ADMUX, starts with the ADSC bit of
//! ADCSRA, runs until the hardware clears ADSC, and leaves a 10-bit result in
//! ADCL and ADCH. The functions here compute those register writes, test for
//! completion, and assemble the result; the firmware does the register
//! accesses and the waiting.

use crate::register::RegisterWrite;
use vstd::prelude::*;

verus! {

/// ADC data register, low byte.
pub const ADCL: u16 = 0x78;
/// ADC data register, high byte.
pub const ADCH: u16 = 0x79;
/// ADC control and status register A.
pub const ADCSRA: u16 = 0x7A;
/// ADC multiplexer selection register.
pub const ADMUX: u16 = 0x7C;

/// Reference selection bit 0 in ADMUX: AVcc as the reference.
pub const REFS0: u8 = 0x40;
/// ADC enable bit in ADCSRA.
pub const ADEN: u8 = 0x80;
/// Start conversion bit in ADCSRA.
pub const ADSC: u8 = 0x40;
/// Prescaler select bit 2 in ADCSRA.
pub const ADPS2: u8 = 0x04;
/// Prescaler select bit 1 in ADCSRA.
pub const ADPS1: u8 = 0x02;
/// Prescaler select bit 0 in ADCSRA.
pub const ADPS0: u8 = 0x01;

/// An analog input channel on the ATmega328P.
#[derive(Clone, Copy, Debug, PartialEq, Eq, Structural)]
pub enum Channel {
    /// Analog channel ADC0, exposed as A0 on the Uno.
    Adc0,
    /// Analog channel ADC1, exposed as A1 on the Uno.
    Adc1,
    /// Analog channel ADC2, exposed as A2 on the Uno.
    Adc2,
    /// Analog channel ADC3, exposed as A3 on the Uno.
    Adc3,
    /// Analog channel ADC4, exposed as A4 on the Uno.
    Adc4,
    /// Analog channel ADC5, exposed as A5 on the Uno.
    Adc5,
}

/// The channel's number, which selects it in the low bits of ADMUX.
pub open spec fn channel_number(channel: Channel) -> u8 {
    match channel {
        Channel::Adc0 => 0,
        Channel::Adc1 => 1,
        Channel::Adc2 => 2,
        Channel::Adc3 => 3,
        Channel::Adc4 => 4,
        Channel::Adc5 => 5,
    }
}

/// Channel ADCk is numbered k: selecting it puts k in the low four bits of
/// ADMUX, so reading analog pin Ak converts Ak. Distinct channels select
/// distinct inputs.
pub proof fn lemma_channel_selects_its_input(admux: u8)
    ensures
        ((admux & 0xF0) | channel_number(Channel::Adc0)) & 0x0F == 0,
        ((admux & 0xF0) | channel_number(Channel::Adc1)) & 0x0F == 1,
        ((admux & 0xF0) | channel_number(Channel::Adc2)) & 0x0F == 2,
        ((admux & 0xF0) | channel_number(Channel::Adc3)) & 0x0F == 3,
        ((admux & 0xF0) | channel_number(Channel::Adc4)) & 0x0F == 4,
        ((admux & 0xF0) | channel_number(Channel::Adc5)) & 0x0F == 5,
        forall|a: Channel, b: Channel| a != b ==> channel_number(a) != channel_number(b),
{
    assert(((admux & 0xF0) | 0u8) & 0x0F == 0u8) by (bit_vector);
    assert(((admux & 0xF0) | 1u8) & 0x0F == 1u8) by (bit_vector);
    assert(((admux & 0xF0) | 2u8) & 0x0F == 2u8) by (bit_vector);
    assert(((admux & 0xF0) | 3u8) & 0x0F == 3u8) by (bit_vector);
    assert(((admux & 0xF0) | 4u8) & 0x0F == 4u8) by (bit_vector);
    assert(((admux & 0xF0) | 5u8) & 0x0F == 5u8) by (bit_vector);
}

impl Channel {
    /// The channel's number.
    pub fn bits(self) -> (bits: u8)
        ensures
            bits == channel_number(self),
    {
        match self {
            Channel::Adc0 => 0,
            Channel::Adc1 => 1,
            Channel::Adc2 => 2,
            Channel::Adc3 => 3,
            Channel::Adc4 => 4,
            Channel::Adc5 => 5,
        }
    }
}

/// The ATmega328P analog-to-digital converter.
pub struct Adc;

impl Default for Adc {
    /// Creates a Adc peripheral handle, as [`Self::new`] does.
    fn default() -> (handle: Self)
        ensures
            handle == Adc,
    {
        Self::new()
    }
}

impl Adc {
    /// Creates an ADC peripheral handle.
    pub fn new() -> (adc: Self)
        ensures
            adc == Adc,
    {
        Self
    }

    /// The writes, in order, that enable the ADC with AVcc as the voltage
    /// reference and the clock divided by 128.
    pub fn configure(&self) -> (writes: [RegisterWrite; 2])
        ensures
            writes@ == seq![
                RegisterWrite { address: ADMUX, value: REFS0 },
                RegisterWrite { address: ADCSRA, value: ADEN | ADPS2 | ADPS1 | ADPS0 },
            ],
    {
        let writes = [
            RegisterWrite { address: ADMUX, value: REFS0 },
            RegisterWrite { address: ADCSRA, value: ADEN | ADPS2 | ADPS1 | ADPS0 },
        ];
        assert(writes@ =~= seq![
            RegisterWrite { address: ADMUX, value: REFS0 },
            RegisterWrite { address: ADCSRA, value: ADEN | ADPS2 | ADPS1 | ADPS0 },
        ]);
        writes
    }

    /// The write that selects `channel`, given the current ADMUX value: the
    /// reference selection in the high four bits is kept and the channel
    /// number replaces the low four bits.
    pub fn select_channel(&self, admux: u8, channel: Channel) -> (write: RegisterWrite)
        ensures
            write.address == ADMUX,
            write.value == (admux & 0xF0) | channel_number(channel),
            write.value & 0xF0 == admux & 0xF0,
            write.value & 0x0F == channel_number(channel),
    {
        let bits = channel.bits();
        let value = (admux & 0xF0) | bits;
        assert(value & 0xF0 == admux & 0xF0 && value & 0x0F == bits) by (bit_vector)
            requires
                value == (admux & 0xF0) | bits,
                bits < 16,
        ;
        RegisterWrite { address: ADMUX, value }
    }

    /// The write that starts a conversion, given the current ADCSRA value.
    pub fn start_conversion(&self, control: u8) -> (write: RegisterWrite)
        ensures
            write.address == ADCSRA,
            write.value == control | ADSC,
    {
        RegisterWrite { address: ADCSRA, value: control | ADSC }
    }

    /// Whether the conversion has finished, given the current ADCSRA value:
    /// the hardware clears ADSC when it is done.
    pub fn conversion_complete(&self, control: u8) -> (done: bool)
        ensures
            done == (control & ADSC == 0),
    {
        control & ADSC == 0
    }

    /// The conversion result from the ADCL and ADCH values, read in that
    /// order so that the pair belongs to one conversion.
    pub fn conversion_result(&self, low: u8, high: u8) -> (result: u16)
        ensures
            result == high as int * 256 + low as int,
    {
        let result = ((high as u16) << 8) | (low as u16);
        assert(result == high as u16 * 256 + low as u16) by (bit_vector)
            requires
                result == ((high as u16) << 8) | (low as u16),
        ;
        result
    }
}

} // verus!
