//! The VarInt datatype: a signed 32-bit integer in one to five bytes.

use crate::types::byte::Byte;
use crate::types::error::ReadError;
use crate::types::wire::{
    continues, encoding, frame_len, framing, groups_value, lemma_encoding_framed,
    lemma_encoding_len, lemma_encoding_minimal, lemma_encoding_value, lemma_groups_value_bound,
    lemma_groups_value_push, lemma_leading_continuations, lemma_weight_values, payload, signed32,
    unsigned32, weight, Framing,
};
use crate::types::{PacketReader, PacketWriter};
use vstd::prelude::*;
use vstd::std_specs::convert::FromSpecImpl;

verus! {

/// The most bytes that a VarInt takes on the wire.
pub const MAX_BYTES: usize = 5;

/// VarInt datatype as described by the Minecraft protocol.
#[derive(Debug)]
pub struct VarInt {
    /// The value of this VarInt, a signed 32-bit integer.
    pub val: i32,
}

impl VarInt {
    /// The bytes that this VarInt is written as: the encoding of its 32 bits
    /// read as an unsigned number.
    pub open spec fn encoded(self) -> Seq<u8> {
        encoding(unsigned32(self.val))
    }

    /// The value that the bytes of one whole number stand for: what their
    /// groups add up to, cut to 32 bits and read as signed.
    pub open spec fn decoded(frame: Seq<u8>) -> i32 {
        signed32(groups_value(frame) % 0x1_0000_0000)
    }

    /// Creates a new VarInt that holds the given value.
    pub fn new(val: i32) -> (created: Self)
        ensures
            created.val == val,
    {
        Self { val }
    }

    /// The value held.
    pub fn get(&self) -> (val: i32)
        ensures
            val == self.val,
    {
        self.val
    }

    /// Replaces the value held.
    pub fn set(&mut self, val: i32)
        ensures
            final(self).val == val,
    {
        self.val = val;
    }

    /// Tries to parse a VarInt from the given input.
    ///
    /// Bytes are taken one at a time and handed to a [`VarIntDecoder`], up to
    /// and including the first that is not flagged as continuing; nothing
    /// behind it is touched. A number that goes on beyond the fifth byte is
    /// refused as too big once its sixth byte has been taken. A failure of
    /// the input is handed on as it came, whatever was read before it.
    ///
    /// From memory the outcome is settled by what the input holds: the value
    /// at its front, `TooBig` for an overlong number, and the input's own
    /// error where it ends too early, an empty input included.
    pub fn read<R: PacketReader>(read: &mut R) -> (res: Result<Self, ReadError>)
        ensures
            R::in_memory() ==> match framing(old(read).pending(), 5) {
                Framing::Complete => {
                    &&& res matches Ok(value)
                    &&& value.val == Self::decoded(
                        old(read).pending().take(frame_len(old(read).pending()) as int),
                    )
                    &&& final(read).pending() == old(read).pending().skip(
                        frame_len(old(read).pending()) as int,
                    )
                },
                Framing::Overlong => {
                    &&& res matches Err(ReadError::TooBig)
                    &&& final(read).pending() == old(read).pending().skip(6)
                },
                Framing::Incomplete => {
                    &&& res matches Err(ReadError::Io(_))
                    &&& final(read).pending().len() == 0
                },
            },
    {
        let ghost stream = read.pending();
        let mut decoder = VarIntDecoder::new();
        loop
            invariant
                stream == old(read).pending(),
                decoder@.len() <= 5,
                forall|j: int| 0 <= j < decoder@.len() ==> continues(#[trigger] decoder@[j]),
                R::in_memory() ==> {
                    &&& decoder@.len() <= stream.len()
                    &&& decoder@ == stream.take(decoder@.len() as int)
                    &&& read.pending() == stream.skip(decoder@.len() as int)
                },
            decreases 6 - decoder@.len(),
        {
            let ghost taken = decoder@.len() as int;
            proof {
                if R::in_memory() {
                    assert forall|j: int| 0 <= j < taken implies continues(
                        #[trigger] stream[j],
                    ) by {
                        assert(decoder@[j] == stream[j]);
                    }
                }
            }
            let byte: u8 = match read.read_byte() {
                Ok(byte) => byte.into(),
                Err(error) => {
                    proof {
                        if R::in_memory() {
                            lemma_leading_continuations(stream, taken as nat);
                        }
                    }
                    return Err(ReadError::Io(error));
                },
            };
            proof {
                if R::in_memory() {
                    assert(byte == stream[taken]);
                    assert(stream.take(taken + 1) =~= stream.take(taken).push(byte));
                    lemma_leading_continuations(stream, taken as nat);
                }
            }
            match decoder.push(byte) {
                Ok(Some(value)) => {
                    return Ok(value);
                },
                Ok(None) => {},
                Err(error) => {
                    return Err(error);
                },
            }
        }
    }

    /// Writes the VarInt to the output, byte by byte.
    ///
    /// Returns the amount of bytes written, which is the length of the
    /// encoding. The first failure of the output ends the writing and is
    /// handed on; the bytes written before it stay written. Into memory the
    /// whole encoding is added.
    pub fn write<W: PacketWriter>(&self, write: &mut W) -> (res: Result<usize, std::io::Error>)
        ensures
            res matches Ok(count) ==> count == self.encoded().len(),
            W::in_memory() ==> res is Ok && final(write).written() == old(write).written()
                + self.encoded(),
    {
        let ghost before = write.written();
        let ghost sent = Seq::<u8>::empty();
        let mut val: u32 = #[verifier::truncate] (self.val as u32);
        let mut count: usize = 0;
        proof {
            assert(#[verifier::truncate] (self.val as u32) == unsigned32(self.val)) by {
                let v = self.val;
                assert(#[verifier::truncate] (v as u32) == if v >= 0 {
                    v as u32
                } else {
                    (v + 0x1_0000_0000) as u32
                }) by (bit_vector);
            }
            lemma_weight_values();
            lemma_encoding_len(unsigned32(self.val), 5);
        }
        loop
            invariant
                before == old(write).written(),
                W::in_memory() ==> write.written() == before + sent,
                sent + encoding(val as nat) == self.encoded(),
                count == sent.len(),
                self.encoded().len() <= 5,
            decreases val,
        {
            assert(val & 0x7F == val % 0x80) by (bit_vector);
            assert(val >> 7 == val / 0x80) by (bit_vector);
            let mut temp: u8 = (val & 0x7F) as u8;
            val = val >> 7;
            if val != 0 {
                assert(temp | 0x80 == temp + 0x80) by (bit_vector)
                    requires
                        temp < 0x80,
                ;
                temp = temp | 0x80;
            }
            match write.write_byte(Byte::from(temp)) {
                Ok(_) => {
                    count += 1;
                },
                Err(error) => {
                    return Err(error);
                },
            }
            proof {
                sent = sent.push(temp);
            }
            if val == 0 {
                return Ok(count);
            }
        }
    }

    /// Serializes this VarInt and returns the raw bytes.
    pub fn write_to_vec(&self) -> (buf: Vec<u8>)
        ensures
            buf@ == self.encoded(),
            1 <= buf@.len() <= 5,
    {
        let mut buf: Vec<u8> = Vec::new();
        let _ = self.write(&mut buf);
        proof {
            lemma_weight_values();
            lemma_encoding_len(unsigned32(self.val), 5);
        }
        buf
    }
}

/// A VarInt that is being decoded from bytes that arrive one at a time.
///
/// The decoder keeps what the bytes of the number so far add up to. It is
/// what [`VarInt::read`] runs on, and serves as well where bytes come in by
/// other ways than a [`PacketReader`].
pub struct VarIntDecoder {
    partial: u32,
    taken: usize,
    seen: Ghost<Seq<u8>>,
}

impl View for VarIntDecoder {
    type V = Seq<u8>;

    /// The bytes of the current number that were taken so far.
    closed spec fn view(&self) -> Seq<u8> {
        self.seen@
    }
}

impl VarIntDecoder {
    /// Between two bytes a decoder holds at most five bytes, all of them
    /// flagged as continuing, and the sum of their groups.
    #[verifier::type_invariant]
    spec fn well_formed(self) -> bool {
        &&& self.taken == self.seen@.len()
        &&& self.taken <= MAX_BYTES
        &&& forall|j: int| 0 <= j < self.seen@.len() ==> continues(#[trigger] self.seen@[j])
        &&& self.partial == groups_value(self.seen@) % 0x1_0000_0000
    }

    /// A decoder that has taken no byte yet.
    pub fn new() -> (decoder: Self)
        ensures
            decoder@ == Seq::<u8>::empty(),
    {
        VarIntDecoder { partial: 0, taken: 0, seen: Ghost(Seq::empty()) }
    }

    /// Puts the value bits of `byte` into `partial` at the place of the
    /// group at position `index`. Bits that do not fit into 32 are dropped.
    fn with_group(partial: u32, index: usize, byte: u8) -> (sum: u32)
        requires
            index < MAX_BYTES,
            partial < weight(index as nat),
        ensures
            sum == (partial + payload(byte) * weight(index as nat)) % 0x1_0000_0000,
    {
        let group = (byte & 0x7F) as u32;
        proof {
            lemma_weight_values();
            assert(byte & 0x7F == byte % 0x80) by (bit_vector);
            if index == 0 {
                assert(partial | (group << 0) == (partial + group * 0x1) % 0x1_0000_0000)
                    by (bit_vector)
                    requires
                        partial < 0x1,
                        group < 0x80,
                ;
            } else if index == 1 {
                assert(partial | (group << 7) == (partial + group * 0x80) % 0x1_0000_0000)
                    by (bit_vector)
                    requires
                        partial < 0x80,
                        group < 0x80,
                ;
            } else if index == 2 {
                assert(partial | (group << 14) == (partial + group * 0x4000) % 0x1_0000_0000)
                    by (bit_vector)
                    requires
                        partial < 0x4000,
                        group < 0x80,
                ;
            } else if index == 3 {
                assert(partial | (group << 21) == (partial + group * 0x20_0000) % 0x1_0000_0000)
                    by (bit_vector)
                    requires
                        partial < 0x20_0000,
                        group < 0x80,
                ;
            } else {
                assert(partial | (group << 28) == (partial + group * 0x1000_0000)
                    % 0x1_0000_0000) by (bit_vector)
                    requires
                        partial < 0x1000_0000,
                        group < 0x80,
                ;
            }
        }
        partial | (group << (7 * index))
    }

    /// Takes the next byte of the number.
    ///
    /// A byte flagged as continuing is added to the number and more is
    /// asked for with `Ok(None)`. A byte that is not ends the number, which
    /// comes back as `Ok(Some(..))`. A sixth byte, whatever it holds, makes
    /// the number too big. After a number or an error the decoder starts
    /// afresh.
    pub fn push(&mut self, byte: u8) -> (res: Result<Option<VarInt>, ReadError>)
        ensures
            old(self)@.len() <= 5,
            old(self)@.len() < 5 && continues(byte) ==> {
                &&& res matches Ok(None)
                &&& final(self)@ == old(self)@.push(byte)
            },
            old(self)@.len() < 5 && !continues(byte) ==> {
                &&& res matches Ok(Some(value))
                &&& value.val == VarInt::decoded(old(self)@.push(byte))
                &&& final(self)@ == Seq::<u8>::empty()
            },
            old(self)@.len() == 5 ==> {
                &&& res matches Err(ReadError::TooBig)
                &&& final(self)@ == Seq::<u8>::empty()
            },
    {
        proof {
            use_type_invariant(&*self);
        }
        if self.taken >= MAX_BYTES {
            *self = VarIntDecoder::new();
            return Err(ReadError::TooBig);
        }
        let ghost seen = self.seen@.push(byte);
        proof {
            lemma_groups_value_bound(self.seen@);
            lemma_groups_value_push(self.seen@, byte);
        }
        let sum = Self::with_group(self.partial, self.taken, byte);
        assert((byte & 0x80 == 0) == !continues(byte)) by {
            assert((byte & 0x80 == 0) == (byte < 0x80)) by (bit_vector);
        }
        if byte & 0x80 == 0 {
            proof {
                assert(#[verifier::truncate] (sum as i32) == signed32(sum as nat)) by {
                    assert(#[verifier::truncate] (sum as i32) == if sum < 0x8000_0000 {
                        sum as i32
                    } else {
                        (sum - 0x1_0000_0000) as i32
                    }) by (bit_vector);
                }
            }
            *self = VarIntDecoder::new();
            Ok(Some(VarInt::new(#[verifier::truncate] (sum as i32))))
        } else {
            *self = VarIntDecoder { partial: sum, taken: self.taken + 1, seen: Ghost(seen) };
            Ok(None)
        }
    }
}

impl From<i32> for VarInt {
    fn from(val: i32) -> (created: Self) {
        Self::new(val)
    }
}

impl FromSpecImpl<i32> for VarInt {
    open spec fn obeys_from_spec() -> bool {
        true
    }

    open spec fn from_spec(val: i32) -> Self {
        VarInt { val }
    }
}

impl std::ops::Deref for VarInt {
    type Target = i32;

    fn deref(&self) -> (val: &i32)
        ensures
            *val == self.val,
    {
        &self.val
    }
}

impl std::ops::DerefMut for VarInt {
    fn deref_mut(&mut self) -> (val: &mut i32)
        ensures
            *val == old(self).val,
            final(self).val == *final(val),
    {
        &mut self.val
    }
}

/// Whatever is written can be read back: at the front of any stream that
/// starts with the bytes of a VarInt, a decoder finds exactly those bytes,
/// and they stand for the value that was written.
pub proof fn lemma_var_int_round_trip(value: VarInt, rest: Seq<u8>)
    ensures
        framing(value.encoded() + rest, 5) is Complete,
        frame_len(value.encoded() + rest) == value.encoded().len(),
        (value.encoded() + rest).take(value.encoded().len() as int) == value.encoded(),
        (value.encoded() + rest).skip(value.encoded().len() as int) == rest,
        VarInt::decoded(value.encoded()) == value.val,
        VarInt::decoded((value.encoded() + rest).take(frame_len(value.encoded() + rest) as int))
            == value.val,
{
    let bits = unsigned32(value.val);
    lemma_weight_values();
    lemma_encoding_len(bits, 5);
    lemma_encoding_framed(bits, rest);
    lemma_encoding_value(bits);
    assert((value.encoded() + rest).take(value.encoded().len() as int) =~= value.encoded());
}

/// A VarInt takes between one and five bytes, zero takes one, and no value
/// takes more bytes than it has groups of seven bits to fill: an encoding of
/// more than one byte belongs to a number too large for any shorter one.
pub proof fn lemma_var_int_len(value: VarInt)
    ensures
        1 <= value.encoded().len() <= 5,
        value.val == 0 ==> value.encoded().len() == 1,
        value.encoded().len() > 1 ==> unsigned32(value.val) >= weight(
            (value.encoded().len() - 1) as nat,
        ),
        unsigned32(value.val) < weight(value.encoded().len()),
{
    let bits = unsigned32(value.val);
    let len = value.encoded().len();
    lemma_weight_values();
    lemma_encoding_len(bits, 5);
    if len > 1 && bits < weight((len - 1) as nat) {
        lemma_encoding_len(bits, (len - 1) as nat);
    }
    if bits >= weight(len) {
        lemma_encoding_minimal(bits, len);
    }
}

} // verus!
