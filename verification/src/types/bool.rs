//! Abstractions over the `bool` type used within Minecraft protocol packets.

use vstd::prelude::*;
use vstd::std_specs::convert::FromSpecImpl;
use vstd::std_specs::convert::IntoSpecImpl;

verus! {

/// What a wire byte means as a boolean: anything but zero is `true`.
pub open spec fn decoded(value: u8) -> bool {
    value != 0
}

/// The one byte that a boolean is written as: `1` for `true`, `0` for `false`.
pub open spec fn encoded(value: bool) -> u8 {
    if value {
        1u8
    } else {
        0u8
    }
}

/// Reads a wire byte as a boolean.
///
/// The protocol expects `true` to be strictly bound to the value `1`, but
/// decoding is generous and takes any non-null value for `true`.
pub fn decode_value(value: u8) -> (decoded_value: bool)
    ensures
        decoded_value == decoded(value),
{
    value != 0
}

/// Gives the wire byte of a boolean, which is always `0` or `1`.
pub fn encode_value(value: bool) -> (byte: u8)
    ensures
        byte == encoded(value),
{
    match value {
        true => 1,
        false => 0,
    }
}

/// Writing a boolean and reading the byte back gives the same boolean, and
/// only `0` and `1` are ever written. Reading is more generous than writing:
/// a byte decodes to `true` exactly when it is not zero.
pub proof fn lemma_bool_round_trip(value: bool, byte: u8)
    ensures
        decoded(encoded(value)) == value,
        encoded(value) == 0 || encoded(value) == 1,
        encoded(decoded(byte)) == byte <==> byte <= 1,
{
}

/// The `bool` type utilised by the Minecraft protocol.
///
/// Booleans travel as unsigned 8-bit integers with two possible values:
///
/// - `1` for `true`
/// - `0` for `false`
#[derive(Clone, Copy, Debug, PartialEq, Eq, Structural)]
pub struct Bool(bool);

impl View for Bool {
    type V = bool;

    closed spec fn view(&self) -> bool {
        self.0
    }
}

impl Bool {
    /// Creates a new [`Bool`] from its value.
    pub fn new(value: bool) -> (created: Self)
        ensures
            created@ == value,
    {
        Bool(value)
    }

    /// The value held.
    pub fn get(&self) -> (value: bool)
        ensures
            value == self@,
    {
        self.0
    }

    /// Replaces the value held.
    pub fn set(&mut self, value: bool)
        ensures
            final(self)@ == value,
    {
        self.0 = value;
    }
}

impl From<bool> for Bool {
    fn from(value: bool) -> (created: Self)
        ensures
            created@ == value,
    {
        Bool::new(value)
    }
}

impl FromSpecImpl<bool> for Bool {
    open spec fn obeys_from_spec() -> bool {
        true
    }

    closed spec fn from_spec(value: bool) -> Self {
        Bool(value)
    }
}

impl From<u8> for Bool {
    fn from(value: u8) -> (created: Self)
        ensures
            created@ == decoded(value),
    {
        Bool::new(decode_value(value))
    }
}

impl FromSpecImpl<u8> for Bool {
    open spec fn obeys_from_spec() -> bool {
        true
    }

    closed spec fn from_spec(value: u8) -> Self {
        Bool(decoded(value))
    }
}

impl Into<bool> for Bool {
    fn into(self) -> (value: bool) {
        self.0
    }
}

impl IntoSpecImpl<bool> for Bool {
    open spec fn obeys_into_spec() -> bool {
        true
    }

    open spec fn into_spec(self) -> bool {
        self@
    }
}

impl Into<u8> for Bool {
    fn into(self) -> (byte: u8) {
        encode_value(self.0)
    }
}

impl IntoSpecImpl<u8> for Bool {
    open spec fn obeys_into_spec() -> bool {
        true
    }

    open spec fn into_spec(self) -> u8 {
        encoded(self@)
    }
}

impl std::ops::Deref for Bool {
    type Target = bool;

    fn deref(&self) -> (value: &bool)
        ensures
            *value == self@,
    {
        &self.0
    }
}

impl std::ops::DerefMut for Bool {
    fn deref_mut(&mut self) -> (value: &mut bool)
        ensures
            *value == old(self)@,
            final(self)@ == *final(value),
    {
        &mut self.0
    }
}

} // verus!
