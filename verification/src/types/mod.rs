//! Type abstractions over primitives that are used in the Minecraft protocol packets.

pub mod bool;
pub mod byte;
pub mod error;
pub mod var_int;
pub mod var_long;
pub mod wire;

use crate::types::bool::{decoded, encoded, Bool};
use crate::types::byte::Byte;
use crate::types::error::unexpected_eof;
use crate::types::wire::{signed8, unsigned8};
use vstd::prelude::*;

verus! {

/// A trait for reading and parsing Minecraft protocol types from an underlying source
/// of serialized binary data.
///
/// Readers, so-called implementors of this trait, are composed of multiple methods which
/// allow for reading and parsing effectively any primitive that the protocol uses.
/// Codecs of larger values are written against this trait and so work over any source.
///
/// What a read returns is for the implementor to decide, and for a reader
/// over a device or a network nothing is claimed of it. A reader that is a
/// buffer in memory says so through `in_memory`, and is then held to hand
/// out its contents byte by byte and to fail only once it is empty.
pub trait PacketReader {
    /// For a reader in memory, the bytes that it has yet to hand out, in
    /// order. It means nothing for any other reader.
    open spec fn pending(&self) -> Seq<u8> {
        Seq::empty()
    }

    /// Whether readers of this type are buffers in memory, which `pending`
    /// describes in full. Unless an implementor says otherwise they are not.
    open spec fn in_memory() -> bool {
        false
    }

    /// Reads a [`Bool`] from an underlying source of data.
    ///
    /// From memory this takes one byte off the front, and fails exactly when
    /// there is none.
    fn read_bool(&mut self) -> (res: Result<Bool, std::io::Error>)
        ensures
            Self::in_memory() ==> match res {
                Ok(value) => {
                    &&& old(self).pending().len() > 0
                    &&& value@ == decoded(old(self).pending()[0])
                    &&& final(self).pending() == old(self).pending().skip(1)
                },
                Err(_) => {
                    &&& old(self).pending().len() == 0
                    &&& final(self).pending().len() == 0
                },
            },
    ;

    /// Reads a [`Byte`] from an underlying source of data.
    ///
    /// From memory this takes one byte off the front, and fails exactly when
    /// there is none.
    fn read_byte(&mut self) -> (res: Result<Byte, std::io::Error>)
        ensures
            Self::in_memory() ==> match res {
                Ok(value) => {
                    &&& old(self).pending().len() > 0
                    &&& value@ == signed8(old(self).pending()[0])
                    &&& final(self).pending() == old(self).pending().skip(1)
                },
                Err(_) => {
                    &&& old(self).pending().len() == 0
                    &&& final(self).pending().len() == 0
                },
            },
    ;
}

/// A slice of bytes is read from its front and shrinks as it is read. Once
/// it is empty, every read fails with an error of the kind `UnexpectedEof`.
impl<'a> PacketReader for &'a [u8] {
    open spec fn pending(&self) -> Seq<u8> {
        self@
    }

    open spec fn in_memory() -> bool {
        true
    }

    fn read_bool(&mut self) -> (res: Result<Bool, std::io::Error>) {
        if self.len() == 0 {
            Err(unexpected_eof())
        } else {
            let first = self[0];
            *self = vstd::slice::slice_subrange(*self, 1, self.len());
            Ok(Bool::from(first))
        }
    }

    fn read_byte(&mut self) -> (res: Result<Byte, std::io::Error>) {
        if self.len() == 0 {
            Err(unexpected_eof())
        } else {
            let first = self[0];
            *self = vstd::slice::slice_subrange(*self, 1, self.len());
            Ok(Byte::from(first))
        }
    }
}

/// A trait for parsing and writing Rust abstractions over the Minecraft protocol types to
/// an underlying source of serialized binary data.
///
/// Writers, so-called implementors of this trait, are composed of multiple methods which
/// allow for parsing and writing any primitive that the protocol uses into compatible
/// binary data.
///
/// Whether a write succeeds is for the implementor to decide, and for a
/// writer over a device or a network nothing is claimed of it. A writer that
/// is a growing buffer in memory says so through `in_memory`, and is then
/// held to take every byte at its end.
pub trait PacketWriter {
    /// For a writer in memory, the bytes that it holds, in order. It means
    /// nothing for any other writer.
    open spec fn written(&self) -> Seq<u8> {
        Seq::empty()
    }

    /// Whether writers of this type are growing buffers in memory, which
    /// `written` describes in full. Unless an implementor says otherwise
    /// they are not.
    open spec fn in_memory() -> bool {
        false
    }

    /// Writes a [`Bool`] to an underlying source of data.
    ///
    /// Returns how many bytes were written. (`1`)
    fn write_bool(&mut self, b: Bool) -> (res: Result<usize, std::io::Error>)
        ensures
            Self::in_memory() ==> res == Ok::<usize, std::io::Error>(1) && final(self).written()
                == old(self).written().push(encoded(b@)),
    ;

    /// Writes a [`Byte`] to an underlying source of data.
    ///
    /// Returns how many bytes were written. (`1`)
    fn write_byte(&mut self, b: Byte) -> (res: Result<usize, std::io::Error>)
        ensures
            Self::in_memory() ==> res == Ok::<usize, std::io::Error>(1) && final(self).written()
                == old(self).written().push(unsigned8(b@)),
    ;
}

/// A vector of bytes takes every byte at its end.
impl PacketWriter for Vec<u8> {
    open spec fn written(&self) -> Seq<u8> {
        self@
    }

    open spec fn in_memory() -> bool {
        true
    }

    fn write_bool(&mut self, b: Bool) -> (res: Result<usize, std::io::Error>) {
        self.push(b.into());
        Ok(1)
    }

    fn write_byte(&mut self, b: Byte) -> (res: Result<usize, std::io::Error>) {
        self.push(b.into());
        Ok(1)
    }
}

} // verus!
