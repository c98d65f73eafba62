//! The Arduino Uno R3 header pins and the port bits they are wired to.

use super::{PinId, Port};
use vstd::prelude::*;

verus! {

/// Header pin D0, wired to port D bit 0.
pub fn d0() -> (id: PinId)
    ensures
        id.spec_port() == Port::D,
        id.spec_bit() == 0,
{
    PinId::new(Port::D, 0)
}

/// Header pin D1, wired to port D bit 1.
pub fn d1() -> (id: PinId)
    ensures
        id.spec_port() == Port::D,
        id.spec_bit() == 1,
{
    PinId::new(Port::D, 1)
}

/// Header pin D2, wired to port D bit 2.
pub fn d2() -> (id: PinId)
    ensures
        id.spec_port() == Port::D,
        id.spec_bit() == 2,
{
    PinId::new(Port::D, 2)
}

/// Header pin D3, wired to port D bit 3.
pub fn d3() -> (id: PinId)
    ensures
        id.spec_port() == Port::D,
        id.spec_bit() == 3,
{
    PinId::new(Port::D, 3)
}

/// Header pin D4, wired to port D bit 4.
pub fn d4() -> (id: PinId)
    ensures
        id.spec_port() == Port::D,
        id.spec_bit() == 4,
{
    PinId::new(Port::D, 4)
}

/// Header pin D5, wired to port D bit 5.
pub fn d5() -> (id: PinId)
    ensures
        id.spec_port() == Port::D,
        id.spec_bit() == 5,
{
    PinId::new(Port::D, 5)
}

/// Header pin D6, wired to port D bit 6.
pub fn d6() -> (id: PinId)
    ensures
        id.spec_port() == Port::D,
        id.spec_bit() == 6,
{
    PinId::new(Port::D, 6)
}

/// Header pin D7, wired to port D bit 7.
pub fn d7() -> (id: PinId)
    ensures
        id.spec_port() == Port::D,
        id.spec_bit() == 7,
{
    PinId::new(Port::D, 7)
}

/// Header pin D8, wired to port B bit 0.
pub fn d8() -> (id: PinId)
    ensures
        id.spec_port() == Port::B,
        id.spec_bit() == 0,
{
    PinId::new(Port::B, 0)
}

/// Header pin D9, wired to port B bit 1.
pub fn d9() -> (id: PinId)
    ensures
        id.spec_port() == Port::B,
        id.spec_bit() == 1,
{
    PinId::new(Port::B, 1)
}

/// Header pin D10, wired to port B bit 2.
pub fn d10() -> (id: PinId)
    ensures
        id.spec_port() == Port::B,
        id.spec_bit() == 2,
{
    PinId::new(Port::B, 2)
}

/// Header pin D11, wired to port B bit 3.
pub fn d11() -> (id: PinId)
    ensures
        id.spec_port() == Port::B,
        id.spec_bit() == 3,
{
    PinId::new(Port::B, 3)
}

/// Header pin D12, wired to port B bit 4.
pub fn d12() -> (id: PinId)
    ensures
        id.spec_port() == Port::B,
        id.spec_bit() == 4,
{
    PinId::new(Port::B, 4)
}

/// Header pin D13, wired to port B bit 5.
pub fn d13() -> (id: PinId)
    ensures
        id.spec_port() == Port::B,
        id.spec_bit() == 5,
{
    PinId::new(Port::B, 5)
}

/// Header pin A0, wired to port C bit 0.
pub fn a0() -> (id: PinId)
    ensures
        id.spec_port() == Port::C,
        id.spec_bit() == 0,
{
    PinId::new(Port::C, 0)
}

/// Header pin A1, wired to port C bit 1.
pub fn a1() -> (id: PinId)
    ensures
        id.spec_port() == Port::C,
        id.spec_bit() == 1,
{
    PinId::new(Port::C, 1)
}

/// Header pin A2, wired to port C bit 2.
pub fn a2() -> (id: PinId)
    ensures
        id.spec_port() == Port::C,
        id.spec_bit() == 2,
{
    PinId::new(Port::C, 2)
}

/// Header pin A3, wired to port C bit 3.
pub fn a3() -> (id: PinId)
    ensures
        id.spec_port() == Port::C,
        id.spec_bit() == 3,
{
    PinId::new(Port::C, 3)
}

/// Header pin A4, wired to port C bit 4.
pub fn a4() -> (id: PinId)
    ensures
        id.spec_port() == Port::C,
        id.spec_bit() == 4,
{
    PinId::new(Port::C, 4)
}

/// Header pin A5, wired to port C bit 5.
pub fn a5() -> (id: PinId)
    ensures
        id.spec_port() == Port::C,
        id.spec_bit() == 5,
{
    PinId::new(Port::C, 5)
}

} // verus!
