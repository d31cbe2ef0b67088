//! The wire protocol: a scan index as a fixed-length train of timed pulses.
//!
//! A code is sent least significant bit first, one pulse per bit. The first
//! half-period of a pulse carries the bit as its level, the second half-period
//! is always low, so every bit takes the same time on the line. An end marker
//! closes the train.

use vstd::prelude::*;

verus! {

/// Number of bits of a code on the wire.
pub const CODE_BITS: usize = 4;

/// Number of descriptors of a pulse train: one per bit, and the end marker.
pub const TRAIN_LEN: usize = 5;

/// Duration of each half-period of a bit, in ticks of the pulse generator.
pub const HALF_PERIOD_TICKS: u16 = 50;

/// One descriptor of a pulse train.
#[derive(Clone, Copy, Debug, PartialEq, Eq)]
pub enum Pulse {
    /// Two half-periods, each held at a level for a number of ticks.
    Bit { first_level: bool, first_ticks: u16, second_level: bool, second_ticks: u16 },
    /// The terminator: no more pulses, the line is released.
    End,
}

/// The train of one code: the pulses in the order they are sent.
pub type Train = [Pulse; 5];

/// The weight of bit `k` of a code: 1, 2, 4, 8.
pub open spec fn spec_weight(k: int) -> int {
    if k <= 0 {
        1
    } else if k == 1 {
        2
    } else if k == 2 {
        4
    } else {
        8
    }
}

/// Bit `k` of `index`.
pub open spec fn spec_bit(index: int, k: int) -> bool {
    (index / spec_weight(k)) % 2 == 1
}

/// The pulse that carries the bit `bit`.
pub open spec fn spec_bit_pulse(bit: bool) -> Pulse {
    Pulse::Bit {
        first_level: bit,
        first_ticks: HALF_PERIOD_TICKS,
        second_level: false,
        second_ticks: HALF_PERIOD_TICKS,
    }
}

/// The train for `index`: its four low bits, least significant first, then
/// the end marker.
pub open spec fn spec_encode(index: int) -> Seq<Pulse> {
    seq![
        spec_bit_pulse(spec_bit(index, 0)),
        spec_bit_pulse(spec_bit(index, 1)),
        spec_bit_pulse(spec_bit(index, 2)),
        spec_bit_pulse(spec_bit(index, 3)),
        Pulse::End,
    ]
}

/// The train for `index` as the array that is handed to the transmitter.
pub open spec fn spec_train(index: int) -> Train {
    let pulses = spec_encode(index);
    [pulses[0], pulses[1], pulses[2], pulses[3], pulses[4]]
}

/// What a receiver reads from one descriptor: the level of the first
/// half-period, as 0 or 1. The end marker reads as 0.
pub open spec fn spec_read(pulse: Pulse) -> int {
    match pulse {
        Pulse::Bit { first_level, .. } => if first_level {
            1
        } else {
            0
        },
        Pulse::End => 0,
    }
}

/// The code that a receiver reconstructs from a train: the bits of the first
/// four descriptors, least significant first.
pub open spec fn spec_decode(train: Seq<Pulse>) -> int {
    spec_read(train[0]) * spec_weight(0) + spec_read(train[1]) * spec_weight(1) + spec_read(
        train[2],
    ) * spec_weight(2) + spec_read(train[3]) * spec_weight(3)
}

/// Whether `train` has the shape of a train: four bit pulses with the fixed
/// timing and framing level, closed by the end marker.
pub open spec fn is_train(train: Seq<Pulse>) -> bool {
    &&& train.len() == TRAIN_LEN
    &&& forall|k: int|
        0 <= k < CODE_BITS ==> (#[trigger] train[k] == spec_bit_pulse(true) || train[k]
            == spec_bit_pulse(false))
    &&& train[CODE_BITS as int] == Pulse::End
}

/// The pulse that carries `bit`.
pub fn bit_pulse(bit: bool) -> (pulse: Pulse)
    ensures
        pulse == spec_bit_pulse(bit),
{
    Pulse::Bit {
        first_level: bit,
        first_ticks: HALF_PERIOD_TICKS,
        second_level: false,
        second_ticks: HALF_PERIOD_TICKS,
    }
}

/// Encodes a scan index as its pulse train. Only the four low bits of
/// `index` are sent.
pub fn encode(index: usize) -> (train: Train)
    ensures
        train == spec_train(index as int),
        train@ == spec_encode(index as int),
        is_train(train@),
        index < 16 ==> spec_decode(train@) == index,
{
    assert((index & 0b0001 != 0) == ((index / 1) % 2 == 1)) by (bit_vector);
    assert((index & 0b0010 != 0) == ((index / 2) % 2 == 1)) by (bit_vector);
    assert((index & 0b0100 != 0) == ((index / 4) % 2 == 1)) by (bit_vector);
    assert((index & 0b1000 != 0) == ((index / 8) % 2 == 1)) by (bit_vector);
    let train: Train = [
        bit_pulse(index & 0b0001 != 0),
        bit_pulse(index & 0b0010 != 0),
        bit_pulse(index & 0b0100 != 0),
        bit_pulse(index & 0b1000 != 0),
        Pulse::End,
    ];
    proof {
        assert(train@ =~= spec_encode(index as int));
        assert(train =~= spec_train(index as int));
        lemma_encode_is_train(index as int);
        lemma_decode_encode(index as int);
    }
    train
}

/// Every encoded train has five descriptors: four bit pulses and the end
/// marker.
pub proof fn lemma_encode_is_train(index: int)
    ensures
        spec_encode(index).len() == 5,
        is_train(spec_encode(index)),
{
}

/// Decoding an encoded train gives back the four low bits of the index, and
/// so the index itself when it is below 16, as every scan index is.
pub proof fn lemma_decode_encode(index: int)
    requires
        0 <= index,
    ensures
        spec_decode(spec_encode(index)) == index % 16,
        index < 16 ==> spec_decode(spec_encode(index)) == index,
{
    let train = spec_encode(index);
    let b0: int = index % 2;
    let b1: int = (index / 2) % 2;
    let b2: int = (index / 4) % 2;
    let b3: int = (index / 8) % 2;
    assert(index % 16 == b0 + 2 * b1 + 4 * b2 + 8 * b3) by {
        lemma_low_bits(index);
    }
    assert(spec_read(train[0]) == b0);
    assert(spec_read(train[1]) == b1);
    assert(spec_read(train[2]) == b2);
    assert(spec_read(train[3]) == b3);
}

/// A natural number below 16 is the sum of its four low bits, each with its
/// weight; a larger one leaves that sum as its remainder by 16.
proof fn lemma_low_bits(index: int)
    requires
        0 <= index,
    ensures
        index % 16 == index % 2 + 2 * ((index / 2) % 2) + 4 * ((index / 4) % 2) + 8 * ((index
            / 8) % 2),
{
    let q1: int = index / 2;
    let q2: int = q1 / 2;
    let q3: int = q2 / 2;
    let q4: int = q3 / 2;
    assert(index / 4 == q2);
    assert(index / 8 == q3);
    assert(index / 16 == q4);
    assert(index == 16 * q4 + 8 * (q3 % 2) + 4 * (q2 % 2) + 2 * (q1 % 2) + index % 2);
}

/// Two scan indices with the same train are the same index.
pub proof fn lemma_encode_injective(index_a: int, index_b: int)
    requires
        0 <= index_a < 16,
        0 <= index_b < 16,
        spec_encode(index_a) == spec_encode(index_b),
    ensures
        index_a == index_b,
{
    lemma_decode_encode(index_a);
    lemma_decode_encode(index_b);
}

} // verus!
