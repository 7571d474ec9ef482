//! Abstractions over the `byte` type used within Minecraft protocol packets.

use crate::types::wire::{signed8, unsigned8};
use vstd::prelude::*;
use vstd::std_specs::convert::FromSpecImpl;
use vstd::std_specs::convert::IntoSpecImpl;

verus! {

/// Reading a signed byte as a raw byte and back changes nothing, either way
/// round: every one of the 256 raw bytes stands for one signed value.
pub proof fn lemma_byte_round_trip(value: i8, bits: u8)
    ensures
        signed8(unsigned8(value)) == value,
        unsigned8(signed8(bits)) == bits,
{
}

/// A raw byte taken as the signed number with the same bits.
fn to_signed(bits: u8) -> (value: i8)
    ensures
        value == signed8(bits),
{
    assert(bits as i8 == if bits < 0x80 {
        bits as i8
    } else {
        (bits - 0x100) as i8
    }) by (bit_vector);
    bits as i8
}

/// A signed number taken as the raw byte with the same bits.
fn to_unsigned(value: i8) -> (bits: u8)
    ensures
        bits == unsigned8(value),
{
    assert(value as u8 == if value >= 0 {
        value as u8
    } else {
        (value + 0x100) as u8
    }) by (bit_vector);
    value as u8
}

/// The `byte` type utilised by the Minecraft protocol.
///
/// Bytes are signed 8-bit integers in two's complement.
#[derive(Clone, Copy, Debug, PartialEq, Eq, Structural)]
pub struct Byte(i8);

impl View for Byte {
    type V = i8;

    closed spec fn view(&self) -> i8 {
        self.0
    }
}

impl Byte {
    /// Creates a new [`Byte`] from its value.
    pub fn new(byte: i8) -> (created: Self)
        ensures
            created@ == byte,
    {
        Byte(byte)
    }

    /// The value held.
    pub fn get(&self) -> (value: i8)
        ensures
            value == self@,
    {
        self.0
    }

    /// Replaces the value held.
    pub fn set(&mut self, value: i8)
        ensures
            final(self)@ == value,
    {
        self.0 = value;
    }
}

impl From<i8> for Byte {
    fn from(value: i8) -> (created: Self)
        ensures
            created@ == value,
    {
        Self::new(value)
    }
}

impl FromSpecImpl<i8> for Byte {
    open spec fn obeys_from_spec() -> bool {
        true
    }

    closed spec fn from_spec(value: i8) -> Self {
        Byte(value)
    }
}

impl From<u8> for Byte {
    fn from(value: u8) -> (created: Self)
        ensures
            created@ == signed8(value),
    {
        Self::new(to_signed(value))
    }
}

impl FromSpecImpl<u8> for Byte {
    open spec fn obeys_from_spec() -> bool {
        true
    }

    closed spec fn from_spec(value: u8) -> Self {
        Byte(signed8(value))
    }
}

impl Into<i8> for Byte {
    fn into(self) -> (value: i8) {
        self.0
    }
}

impl IntoSpecImpl<i8> for Byte {
    open spec fn obeys_into_spec() -> bool {
        true
    }

    open spec fn into_spec(self) -> i8 {
        self@
    }
}

impl Into<u8> for Byte {
    fn into(self) -> (bits: u8) {
        to_unsigned(self.0)
    }
}

impl IntoSpecImpl<u8> for Byte {
    open spec fn obeys_into_spec() -> bool {
        true
    }

    open spec fn into_spec(self) -> u8 {
        unsigned8(self@)
    }
}

impl std::ops::Deref for Byte {
    type Target = i8;

    fn deref(&self) -> (value: &i8)
        ensures
            *value == self@,
    {
        &self.0
    }
}

impl std::ops::DerefMut for Byte {
    fn deref_mut(&mut self) -> (value: &mut i8)
        ensures
            *value == old(self)@,
            final(self)@ == *final(value),
    {
        &mut self.0
    }
}

} // verus!
