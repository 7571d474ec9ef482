//! Primitive data types of the Minecraft protocol, with the codecs that put
//! them on the wire and take them off it again.
//!
//! The codecs are verified: each says in its contract which bytes it writes
//! or which value it reads, against the description of the wire format in
//! [`types::wire`].

pub mod types;

pub use types::bool::Bool;
pub use types::byte::Byte;
pub use types::error::ReadError;
pub use types::var_int::{VarInt, VarIntDecoder};
pub use types::var_long::{VarLong, VarLongDecoder};
pub use types::{PacketReader, PacketWriter};

use vstd::prelude::*;

verus! {

/// Represents a generic protocol Packet.
///
/// A packet pairs a length prefix and a packet id with its payload. How a
/// payload turns into bytes is up to whoever defines it.
#[derive(Debug)]
pub struct Packet<P> {
    length: VarInt,
    packet_id: VarInt,
    data: P,
}

impl<P> Packet<P> {
    /// The length prefix, the packet id and the payload of this packet.
    pub closed spec fn parts(self) -> (VarInt, VarInt, P) {
        (self.length, self.packet_id, self.data)
    }

    /// Puts a packet together from its length prefix, its id and its payload.
    pub fn new(length: VarInt, packet_id: VarInt, data: P) -> (packet: Self)
        ensures
            packet.parts() == (length, packet_id, data),
    {
        Packet { length, packet_id, data }
    }

    /// The length prefix.
    pub fn length(&self) -> (length: &VarInt)
        ensures
            *length == self.parts().0,
    {
        &self.length
    }

    /// The packet id.
    pub fn packet_id(&self) -> (packet_id: &VarInt)
        ensures
            *packet_id == self.parts().1,
    {
        &self.packet_id
    }

    /// The payload.
    pub fn data(&self) -> (data: &P)
        ensures
            *data == self.parts().2,
    {
        &self.data
    }

    /// Takes the packet apart again.
    pub fn into_parts(self) -> (parts: (VarInt, VarInt, P))
        ensures
            parts == self.parts(),
    {
        (self.length, self.packet_id, self.data)
    }
}

} // verus!
