use vstd::prelude::*;

verus! {

/// I2C device address, chosen by the three selector pins `A2`, `A1` and `A0`.
///
/// A pin left floating counts as low.
#[derive(Clone, Copy, Debug, PartialEq, Eq, Structural)]
pub enum Address {
    /// `0x50`: `A2` low, `A1` low, `A0` low.
    Addr0,
    /// `0x51`: `A2` low, `A1` low, `A0` high.
    Addr1,
    /// `0x52`: `A2` low, `A1` high, `A0` low.
    Addr2,
    /// `0x53`: `A2` low, `A1` high, `A0` high.
    Addr3,
    /// `0x54`: `A2` high, `A1` low, `A0` low.
    Addr4,
    /// `0x55`: `A2` high, `A1` low, `A0` high.
    Addr5,
    /// `0x56`: `A2` high, `A1` high, `A0` low.
    Addr6,
    /// `0x57`: `A2` high, `A1` high, `A0` high.
    Addr7,
}

/// The base of the device address block: all three pins low.
pub const BASE_ADDRESS: u8 = 0x50;

impl Address {
    /// The number that the pins `A2 A1 A0` spell, read as a binary number.
    pub open spec fn pins(self) -> nat {
        match self {
            Address::Addr0 => 0,
            Address::Addr1 => 1,
            Address::Addr2 => 2,
            Address::Addr3 => 3,
            Address::Addr4 => 4,
            Address::Addr5 => 5,
            Address::Addr6 => 6,
            Address::Addr7 => 7,
        }
    }

    /// The 7-bit bus address that the device answers to.
    pub open spec fn spec_bits(self) -> u8 {
        (BASE_ADDRESS + self.pins()) as u8
    }

    /// The 7-bit bus address that the device answers to.
    pub fn bits(&self) -> (r: u8)
        ensures
            r == self.spec_bits(),
            0x50 <= r <= 0x57,
    {
        match self {
            Address::Addr0 => 0x50,
            Address::Addr1 => 0x51,
            Address::Addr2 => 0x52,
            Address::Addr3 => 0x53,
            Address::Addr4 => 0x54,
            Address::Addr5 => 0x55,
            Address::Addr6 => 0x56,
            Address::Addr7 => 0x57,
        }
    }
}

/// The selector pins decide the bus address one to one: every pin setting
/// gives an address in `0x50..=0x57` equal to `0x50` plus the pins read as a
/// binary number, and two different settings never share an address.
pub proof fn lemma_address_map_exact(a: Address, b: Address)
    ensures
        0x50 <= a.spec_bits() <= 0x57,
        a.spec_bits() == 0x50 + a.pins(),
        a.spec_bits() == b.spec_bits() <==> a == b,
{
}

/// Every bus address in `0x50..=0x57` belongs to exactly one pin setting.
pub proof fn lemma_address_map_onto(bits: u8)
    requires
        0x50 <= bits <= 0x57,
    ensures
        exists|a: Address| a.spec_bits() == bits,
{
    let a = if bits == 0x50 {
        Address::Addr0
    } else if bits == 0x51 {
        Address::Addr1
    } else if bits == 0x52 {
        Address::Addr2
    } else if bits == 0x53 {
        Address::Addr3
    } else if bits == 0x54 {
        Address::Addr4
    } else if bits == 0x55 {
        Address::Addr5
    } else if bits == 0x56 {
        Address::Addr6
    } else {
        Address::Addr7
    };
    assert(a.spec_bits() == bits);
}

} // verus!
