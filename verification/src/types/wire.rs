//! The wire format of variable-length integers, stated as mathematics.
//!
//! A number is cut into groups of seven bits, least significant group first.
//! Each group travels in one byte; the byte's high bit says that another group
//! follows. Nothing here runs: the codecs in the sibling modules are proved
//! against these definitions.

use vstd::prelude::*;

verus! {

/// Whether a byte announces that another byte follows it.
pub open spec fn continues(byte: u8) -> bool {
    byte >= 0x80
}

/// The seven value bits that a byte carries.
pub open spec fn payload(byte: u8) -> nat {
    (byte % 0x80) as nat
}

/// The place value of the group at position `index`: 128 to the power `index`.
pub open spec fn weight(index: nat) -> nat
    decreases index,
{
    if index == 0 {
        1
    } else {
        128 * weight((index - 1) as nat)
    }
}

/// The number that a run of bytes carries in its value bits, first byte least
/// significant. Continuation bits play no part in it.
pub open spec fn groups_value(bytes: Seq<u8>) -> nat
    decreases bytes.len(),
{
    if bytes.len() == 0 {
        0
    } else {
        payload(bytes[0]) + 128 * groups_value(bytes.skip(1))
    }
}

/// The encoding of a number: its groups in order, every byte but the last
/// flagged as continuing. Zero is the single byte `0x00`.
pub open spec fn encoding(value: nat) -> Seq<u8>
    decreases value,
{
    if value < 128 {
        seq![value as u8]
    } else {
        seq![(value % 128 + 128) as u8] + encoding(value / 128)
    }
}

/// How many bytes at the front of `bytes` are flagged as continuing.
pub open spec fn leading_continuations(bytes: Seq<u8>) -> nat
    decreases bytes.len(),
{
    if bytes.len() == 0 || !continues(bytes[0]) {
        0
    } else {
        1 + leading_continuations(bytes.skip(1))
    }
}

/// How long the number at the front of `bytes` is: the bytes flagged as
/// continuing, and the one that ends them. Where the stream ends first, this
/// is more than it holds.
pub open spec fn frame_len(bytes: Seq<u8>) -> nat {
    leading_continuations(bytes) + 1
}

/// What a decoder that accepts at most `max` bytes per number finds at the
/// front of a stream.
pub enum Framing {
    /// One whole number of at most `max` bytes.
    Complete,
    /// A number that goes on for more than `max` bytes.
    Overlong,
    /// The stream ends before the matter is settled.
    Incomplete,
}

/// Classifies the front of `bytes` for a decoder limited to `max` bytes per
/// number. A number counts as overlong once a byte beyond the `max`-th is
/// there to be read; that byte's own continuation bit does not matter.
pub open spec fn framing(bytes: Seq<u8>, max: nat) -> Framing {
    if frame_len(bytes) <= max && frame_len(bytes) <= bytes.len() {
        Framing::Complete
    } else if frame_len(bytes) > max && bytes.len() > max {
        Framing::Overlong
    } else {
        Framing::Incomplete
    }
}

/// The bit pattern of an 8-bit two's-complement number, read as unsigned.
pub open spec fn unsigned8(value: i8) -> u8 {
    if value >= 0 {
        value as u8
    } else {
        (value + 0x100) as u8
    }
}

/// The 8-bit two's-complement number with the given bit pattern.
pub open spec fn signed8(bits: u8) -> i8 {
    if bits < 0x80 {
        bits as i8
    } else {
        (bits - 0x100) as i8
    }
}

/// The bit pattern of a 32-bit two's-complement number, read as unsigned.
pub open spec fn unsigned32(value: i32) -> nat {
    if value >= 0 {
        value as nat
    } else {
        (value + 0x1_0000_0000) as nat
    }
}

/// The 32-bit two's-complement number with the given bit pattern.
pub open spec fn signed32(bits: nat) -> i32 {
    if bits < 0x8000_0000 {
        bits as i32
    } else {
        (bits - 0x1_0000_0000) as i32
    }
}

/// The bit pattern of a 64-bit two's-complement number, read as unsigned.
pub open spec fn unsigned64(value: i64) -> nat {
    if value >= 0 {
        value as nat
    } else {
        (value + 0x1_0000_0000_0000_0000) as nat
    }
}

/// The 64-bit two's-complement number with the given bit pattern.
pub open spec fn signed64(bits: nat) -> i64 {
    if bits < 0x8000_0000_0000_0000 {
        bits as i64
    } else {
        (bits - 0x1_0000_0000_0000_0000) as i64
    }
}

/// The place values of the ten positions that the widest number uses, and
/// the first one beyond them.
pub proof fn lemma_weight_values()
    ensures
        weight(0) == 0x1,
        weight(1) == 0x80,
        weight(2) == 0x4000,
        weight(3) == 0x20_0000,
        weight(4) == 0x1000_0000,
        weight(5) == 0x8_0000_0000,
        weight(6) == 0x400_0000_0000,
        weight(7) == 0x2_0000_0000_0000,
        weight(8) == 0x100_0000_0000_0000,
        weight(9) == 0x8000_0000_0000_0000,
        weight(10) == 0x40_0000_0000_0000_0000,
{
    reveal_with_fuel(weight, 11);
}

/// Appending a byte adds its groups at the next place value.
pub proof fn lemma_groups_value_push(bytes: Seq<u8>, byte: u8)
    ensures
        groups_value(bytes.push(byte)) == groups_value(bytes) + payload(byte) * weight(bytes.len()),
    decreases bytes.len(),
{
    if bytes.len() == 0 {
        assert(bytes.push(byte).skip(1) =~= Seq::<u8>::empty());
        assert(groups_value(bytes.push(byte).skip(1)) == 0);
    } else {
        let tail = bytes.skip(1);
        assert(bytes.push(byte).skip(1) =~= tail.push(byte));
        lemma_groups_value_push(tail, byte);
        assert(weight(bytes.len()) == 128 * weight(tail.len()));
        assert(128 * (payload(byte) * weight(tail.len())) == payload(byte) * (128 * weight(
            tail.len(),
        ))) by (nonlinear_arith);
    }
}

/// A run of `n` bytes carries a number below `128^n`.
pub proof fn lemma_groups_value_bound(bytes: Seq<u8>)
    ensures
        groups_value(bytes) < weight(bytes.len()),
    decreases bytes.len(),
{
    if bytes.len() > 0 {
        lemma_groups_value_bound(bytes.skip(1));
    }
}

/// Place values grow with the position.
pub proof fn lemma_weight_increases(low: nat, high: nat)
    requires
        low <= high,
    ensures
        0 < weight(low) <= weight(high),
    decreases high,
{
    if high == 0 {
    } else if low == high {
        lemma_weight_increases((low - 1) as nat, (high - 1) as nat);
    } else {
        lemma_weight_increases(low, (high - 1) as nat);
    }
}

/// The encoding of a number carries that number.
pub proof fn lemma_encoding_value(value: nat)
    ensures
        groups_value(encoding(value)) == value,
    decreases value,
{
    if value < 128 {
        assert(groups_value(encoding(value).skip(1)) == 0);
    } else {
        let rest = encoding(value / 128);
        lemma_encoding_value(value / 128);
        assert(encoding(value).skip(1) =~= rest);
    }
}

/// An encoding is never empty, and a number below `128^k` takes at most `k`
/// bytes.
pub proof fn lemma_encoding_len(value: nat, k: nat)
    requires
        value < weight(k),
    ensures
        1 <= encoding(value).len(),
        1 <= k ==> encoding(value).len() <= k,
    decreases value,
{
    if value >= 128 {
        lemma_encoding_len(value / 128, (k - 1) as nat);
    }
}

/// An encoding is as short as its number allows: a number of at least
/// `128^k` takes more than `k` bytes.
pub proof fn lemma_encoding_minimal(value: nat, k: nat)
    requires
        value >= weight(k),
    ensures
        encoding(value).len() > k,
    decreases k,
{
    if k > 0 {
        lemma_weight_increases(0, (k - 1) as nat);
        lemma_encoding_minimal(value / 128, (k - 1) as nat);
    }
}

/// In an encoding every byte but the last is flagged as continuing, so a
/// decoder finds its end whatever follows.
pub proof fn lemma_encoding_framed(value: nat, rest: Seq<u8>)
    ensures
        leading_continuations(encoding(value) + rest) == encoding(value).len() - 1,
    decreases value,
{
    if value >= 128 {
        lemma_encoding_framed(value / 128, rest);
        assert((encoding(value) + rest).skip(1) =~= encoding(value / 128) + rest);
    }
}

/// Where there is nothing to read, no number is complete and none is
/// overlong, whatever the limit.
pub proof fn lemma_nothing_to_read(max: nat)
    ensures
        framing(Seq::<u8>::empty(), max) is Incomplete,
{
}

/// A stream that holds more than `max` bytes, the first `max` of which all
/// continue, is overlong for a decoder limited to `max` bytes.
pub proof fn lemma_overlong(bytes: Seq<u8>, max: nat)
    requires
        bytes.len() > max,
        forall|j: int| 0 <= j < max ==> continues(#[trigger] bytes[j]),
    ensures
        framing(bytes, max) is Overlong,
{
    lemma_leading_continuations(bytes, max);
}

/// A stream whose first `run` bytes all continue has at least `run` leading
/// continuations; the count is exact where the next byte ends the number or
/// the stream ends.
pub proof fn lemma_leading_continuations(bytes: Seq<u8>, run: nat)
    requires
        run <= bytes.len(),
        forall|j: int| 0 <= j < run ==> continues(#[trigger] bytes[j]),
    ensures
        leading_continuations(bytes) >= run,
        run == bytes.len() ==> leading_continuations(bytes) == run,
        run < bytes.len() && !continues(bytes[run as int]) ==> leading_continuations(bytes) == run,
    decreases run,
{
    if run > 0 {
        let tail = bytes.skip(1);
        assert forall|j: int| 0 <= j < run - 1 implies continues(#[trigger] tail[j]) by {
            assert(tail[j] == bytes[j + 1]);
        }
        lemma_leading_continuations(tail, (run - 1) as nat);
        assert(continues(bytes[0]));
        if run < bytes.len() {
            assert(tail[run - 1] == bytes[run as int]);
        }
    }
}

} // verus!
