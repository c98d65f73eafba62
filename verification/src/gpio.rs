//! GPIO for the ATmega328P.
//!
//! Each port has three registers: PINx reads the pins' levels, DDRx selects
//! outputs, and PORTx drives outputs or, for inputs, enables pull-ups. The
//! functions here compute the register writes that configure and drive a pin
//! from the register's current value, and read a pin's level from PINx.

use crate::register::{bit_set, RegisterWrite};
use core::marker::PhantomData;
use vstd::prelude::*;

pub mod board;

verus! {

/// A general-purpose I/O port on the ATmega328P.
#[derive(Clone, Copy, Debug, PartialEq, Eq, Structural)]
pub enum Port {
    /// GPIO port B.
    B,
    /// GPIO port C.
    C,
    /// GPIO port D.
    D,
}

/// The data-space address of a port's PINx, DDRx and PORTx registers, which
/// follow one another.
pub open spec fn port_base(port: Port) -> u16 {
    match port {
        Port::B => 0x23,
        Port::C => 0x26,
        Port::D => 0x29,
    }
}

/// The ATmega328P's port registers: PINB, DDRB and PORTB at 0x23 to 0x25,
/// port C's at 0x26 to 0x28, and port D's at 0x29 to 0x2B, so no two ports
/// share a register.
pub proof fn lemma_port_addresses(a: Port, b: Port)
    ensures
        port_base(Port::B) == 0x23,
        port_base(Port::C) == 0x26,
        port_base(Port::D) == 0x29,
        a != b ==> port_base(a) + 3 <= port_base(b) || port_base(b) + 3 <= port_base(a),
{
}

impl Port {
    /// The address of the port's input register PINx.
    pub fn pin_register(self) -> (address: u16)
        ensures
            address == port_base(self),
    {
        match self {
            Port::B => 0x23,
            Port::C => 0x26,
            Port::D => 0x29,
        }
    }

    /// The address of the port's data direction register DDRx.
    pub fn direction_register(self) -> (address: u16)
        ensures
            address == port_base(self) + 1,
    {
        match self {
            Port::B => 0x24,
            Port::C => 0x27,
            Port::D => 0x2A,
        }
    }

    /// The address of the port's output register PORTx.
    pub fn output_register(self) -> (address: u16)
        ensures
            address == port_base(self) + 2,
    {
        match self {
            Port::B => 0x25,
            Port::C => 0x28,
            Port::D => 0x2B,
        }
    }
}

/// Identifies a GPIO pin by its hardware port and bit position.
#[derive(Clone, Copy, Debug, PartialEq, Eq, Structural)]
pub struct PinId {
    port: Port,
    bit: u8,
}

impl PinId {
    /// A pin's bit position names one of a port's eight pins.
    #[verifier::type_invariant]
    spec fn bit_in_range(self) -> bool {
        self.bit < 8
    }

    /// The pin's port.
    pub closed spec fn spec_port(self) -> Port {
        self.port
    }

    /// The pin's bit position within its port.
    pub closed spec fn spec_bit(self) -> u8 {
        self.bit
    }

    /// Creates a pin identifier for `bit` within `port`; `bit` must be at
    /// most seven.
    pub fn new(port: Port, bit: u8) -> (id: Self)
        requires
            bit < 8,
        ensures
            id.spec_port() == port,
            id.spec_bit() == bit,
    {
        Self { port, bit }
    }

    /// The pin's port.
    pub fn port(self) -> (port: Port)
        ensures
            port == self.spec_port(),
    {
        self.port
    }

    /// The pin's bit position within its port.
    pub fn bit(self) -> (bit: u8)
        ensures
            bit == self.spec_bit(),
            bit < 8,
    {
        proof {
            use_type_invariant(self);
        }
        self.bit
    }

    /// The pin's bit mask within its port's registers.
    pub fn mask(self) -> (mask: u8)
        ensures
            mask == 1u8 << self.spec_bit(),
    {
        proof {
            use_type_invariant(self);
        }
        1u8 << self.bit
    }
}

/// A mask of the single bit `bit` sets exactly that bit of a register.
proof fn lemma_set_bit(value: u8, bit: u8, other: u8)
    by (bit_vector)
    requires
        bit < 8,
        other < 8,
    ensures
        ((value | (1u8 << bit)) >> other) & 1u8 == 1u8 <==> other == bit || (value >> other) & 1u8
            == 1u8,
{
}

/// Clearing the single bit `bit` clears exactly that bit of a register.
proof fn lemma_clear_bit(value: u8, bit: u8, other: u8)
    by (bit_vector)
    requires
        bit < 8,
        other < 8,
    ensures
        ((value & !(1u8 << bit)) >> other) & 1u8 == 1u8 <==> other != bit && (value >> other)
            & 1u8 == 1u8,
{
}

/// Masking by the single bit `bit` tests exactly that bit.
proof fn lemma_test_bit(value: u8, bit: u8)
    by (bit_vector)
    requires
        bit < 8,
    ensures
        (value & (1u8 << bit) == 0u8) <==> !((value >> bit) & 1u8 == 1u8),
{
}

/// `after` is `before` with bit `bit` set to `level` and every other bit kept.
pub open spec fn only_bit_changed(before: u8, after: u8, bit: u8, level: bool) -> bool {
    forall|other: u8|
        other < 8 ==> #[trigger] bit_set(after, other) == if other == bit {
            level
        } else {
            bit_set(before, other)
        }
}


/// The electrical pull configuration for an input pin.
#[derive(Clone, Copy, Debug, PartialEq, Eq, Structural)]
pub enum Pull {
    /// Leaves the input floating.
    Floating,
    /// Enables the internal pull-up resistor.
    Up,
}

/// Marks a pin as an output.
pub struct Output;

/// Marks a pin as an input.
pub struct Input;

/// A GPIO pin configured with mode `Mode`.
pub struct Pin<Mode> {
    id: PinId,
    mode: PhantomData<Mode>,
}

impl<Mode> Pin<Mode> {
    /// The pin this handle drives or reads.
    pub closed spec fn spec_id(&self) -> PinId {
        self.id
    }

    /// The pin this handle drives or reads.
    pub fn id(&self) -> (id: PinId)
        ensures
            id == self.spec_id(),
    {
        self.id
    }
}

impl Pin<Output> {
    /// Creates an output-pin handle.
    ///
    /// Call [`Self::configure`] before driving the pin.
    pub fn new(id: PinId) -> (pin: Self)
        ensures
            pin.spec_id() == id,
    {
        Self { id, mode: PhantomData }
    }

    /// The write that configures the pin as an output, given the port's
    /// current DDRx value: the pin's direction bit is set and the other pins
    /// keep theirs.
    pub fn configure(&self, directions: u8) -> (write: RegisterWrite)
        ensures
            write.address == port_base(self.spec_id().spec_port()) + 1,
            write.value == directions | (1u8 << self.spec_id().spec_bit()),
            only_bit_changed(directions, write.value, self.spec_id().spec_bit(), true),
    {
        proof {
            use_type_invariant(self.id);
        }
        let write = RegisterWrite {
            address: self.id.port.direction_register(),
            value: directions | self.id.mask(),
        };
        proof {
            assert forall|other: u8| other < 8 implies #[trigger] bit_set(write.value, other) == if other
                == self.id.bit {
                true
            } else {
                bit_set(directions, other)
            } by {
                lemma_set_bit(directions, self.id.bit, other);
            }
        }
        write
    }

    /// The write that drives the pin high, given the port's current PORTx
    /// value: the pin's bit is set and the other pins keep theirs.
    pub fn set_high(&self, outputs: u8) -> (write: RegisterWrite)
        ensures
            write.address == port_base(self.spec_id().spec_port()) + 2,
            write.value == outputs | (1u8 << self.spec_id().spec_bit()),
            only_bit_changed(outputs, write.value, self.spec_id().spec_bit(), true),
    {
        proof {
            use_type_invariant(self.id);
        }
        let write = RegisterWrite {
            address: self.id.port.output_register(),
            value: outputs | self.id.mask(),
        };
        proof {
            assert forall|other: u8| other < 8 implies #[trigger] bit_set(write.value, other) == if other
                == self.id.bit {
                true
            } else {
                bit_set(outputs, other)
            } by {
                lemma_set_bit(outputs, self.id.bit, other);
            }
        }
        write
    }

    /// The write that drives the pin low, given the port's current PORTx
    /// value: the pin's bit is cleared and the other pins keep theirs.
    pub fn set_low(&self, outputs: u8) -> (write: RegisterWrite)
        ensures
            write.address == port_base(self.spec_id().spec_port()) + 2,
            write.value == outputs & !(1u8 << self.spec_id().spec_bit()),
            only_bit_changed(outputs, write.value, self.spec_id().spec_bit(), false),
    {
        proof {
            use_type_invariant(self.id);
        }
        let write = RegisterWrite {
            address: self.id.port.output_register(),
            value: outputs & !self.id.mask(),
        };
        proof {
            assert forall|other: u8| other < 8 implies #[trigger] bit_set(write.value, other) == if other
                == self.id.bit {
                false
            } else {
                bit_set(outputs, other)
            } by {
                lemma_clear_bit(outputs, self.id.bit, other);
            }
        }
        write
    }

    /// The write that drives the pin high when `high` is `true`, or low
    /// otherwise, given the port's current PORTx value.
    pub fn set(&self, outputs: u8, high: bool) -> (write: RegisterWrite)
        ensures
            write.address == port_base(self.spec_id().spec_port()) + 2,
            write.value == if high {
                outputs | (1u8 << self.spec_id().spec_bit())
            } else {
                outputs & !(1u8 << self.spec_id().spec_bit())
            },
            only_bit_changed(outputs, write.value, self.spec_id().spec_bit(), high),
    {
        if high {
            self.set_high(outputs)
        } else {
            self.set_low(outputs)
        }
    }
}

impl Pin<Input> {
    /// Creates an input-pin handle.
    ///
    /// Call [`Self::configure`] before reading the pin.
    pub fn new(id: PinId) -> (pin: Self)
        ensures
            pin.spec_id() == id,
    {
        Self { id, mode: PhantomData }
    }

    /// The writes, in order, that configure the pin as an input with the
    /// selected pull, given the port's current DDRx and PORTx values: the
    /// pin's direction bit is cleared, then its PORTx bit, which controls the
    /// pull-up of an input, is set for [`Pull::Up`] and cleared for
    /// [`Pull::Floating`]. The other pins keep their bits.
    pub fn configure(&self, directions: u8, outputs: u8, pull: Pull) -> (writes: (
        RegisterWrite,
        RegisterWrite,
    ))
        ensures
            writes.0.address == port_base(self.spec_id().spec_port()) + 1,
            writes.0.value == directions & !(1u8 << self.spec_id().spec_bit()),
            only_bit_changed(directions, writes.0.value, self.spec_id().spec_bit(), false),
            writes.1.address == port_base(self.spec_id().spec_port()) + 2,
            writes.1.value == match pull {
                Pull::Floating => outputs & !(1u8 << self.spec_id().spec_bit()),
                Pull::Up => outputs | (1u8 << self.spec_id().spec_bit()),
            },
            only_bit_changed(outputs, writes.1.value, self.spec_id().spec_bit(), pull == Pull::Up),
    {
        proof {
            use_type_invariant(self.id);
        }
        let mask = self.id.mask();
        let direction = RegisterWrite {
            address: self.id.port.direction_register(),
            value: directions & !mask,
        };
        let output = match pull {
            Pull::Floating => RegisterWrite {
                address: self.id.port.output_register(),
                value: outputs & !mask,
            },
            Pull::Up => RegisterWrite {
                address: self.id.port.output_register(),
                value: outputs | mask,
            },
        };
        proof {
            let bit = self.id.bit;
            assert forall|other: u8| other < 8 implies #[trigger] bit_set(direction.value, other) == if other
                == bit {
                false
            } else {
                bit_set(directions, other)
            } by {
                lemma_clear_bit(directions, bit, other);
            }
            assert forall|other: u8| other < 8 implies #[trigger] bit_set(output.value, other) == if other
                == bit {
                pull == Pull::Up
            } else {
                bit_set(outputs, other)
            } by {
                lemma_clear_bit(outputs, bit, other);
                lemma_set_bit(outputs, bit, other);
            }
        }
        (direction, output)
    }

    /// Whether the pin's electrical level is low, given the port's PINx value.
    pub fn is_low(&self, levels: u8) -> (low: bool)
        ensures
            low == (levels & (1u8 << self.spec_id().spec_bit()) == 0),
            low == !bit_set(levels, self.spec_id().spec_bit()),
    {
        proof {
            use_type_invariant(self.id);
            lemma_test_bit(levels, self.id.bit);
        }
        levels & self.id.mask() == 0
    }

    /// Whether the pin's electrical level is high, given the port's PINx value.
    pub fn is_high(&self, levels: u8) -> (high: bool)
        ensures
            high == bit_set(levels, self.spec_id().spec_bit()),
    {
        !self.is_low(levels)
    }
}

} // verus!
