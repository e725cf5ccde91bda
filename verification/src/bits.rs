//! Basis-index arithmetic.
//!
//! A basis state of `n` qubits is an index below `2^n`; bit `k` of the index
//! is the value of qubit `k`, qubit 0 being the least significant bit.
use vstd::prelude::*;

verus! {

/// The largest qubit count whose dimension `2^n` still fits in 64 bits.
pub const MAX_QUBITS: usize = 63;

/// The value, 0 or 1, of bit `position` of `index`.
pub open spec fn bit_of(index: u64, position: u64) -> u64 {
    (index >> position) & 1
}

/// The number `2^width - 1`, whose set bits are exactly the low `width` ones.
pub open spec fn low_mask(width: u64) -> u64 {
    ((1u64 << width) - 1) as u64
}

/// `reduced` with a zero bit opened at `position`: the bits below `position`
/// stay, the bits from `position` upward move up by one.
pub open spec fn spec_insert_bit(reduced: u64, position: u64) -> u64 {
    (((reduced >> position) << 1) << position) | (reduced & low_mask(position))
}

/// `full` with the bit at `position` taken out: the inverse of
/// [`spec_insert_bit`] on indices whose bit at `position` is zero.
pub open spec fn spec_remove_bit(full: u64, position: u64) -> u64 {
    (((full >> position) >> 1) << position) | (full & low_mask(position))
}

/// Bit `position` of an inserted index is zero, every bit below it is the
/// bit of `reduced` at the same place, and every bit above it is the bit of
/// `reduced` one place lower.
pub proof fn lemma_insert_bit_bits(reduced: u64, position: u64, other: u64)
    requires
        position < 64,
        other < 64,
    ensures
        bit_of(spec_insert_bit(reduced, position), position) == 0,
        other < position ==> bit_of(spec_insert_bit(reduced, position), other) == bit_of(
            reduced,
            other,
        ),
        other > position ==> bit_of(spec_insert_bit(reduced, position), other) == bit_of(
            reduced,
            (other - 1) as u64,
        ),
{
    assert(bit_of(spec_insert_bit(reduced, position), position) == 0) by (bit_vector)
        requires
            position < 64,
    ;
    assert(other < position ==> bit_of(spec_insert_bit(reduced, position), other) == bit_of(
        reduced,
        other,
    )) by (bit_vector)
        requires
            position < 64,
            other < 64,
    ;
    assert(other > position ==> bit_of(spec_insert_bit(reduced, position), other) == bit_of(
        reduced,
        (other - 1) as u64,
    )) by (bit_vector)
        requires
            position < 64,
            other < 64,
    ;
}

/// Removing the inserted bit gives the reduced index back, so distinct
/// reduced indices are sent to distinct full indices.
pub proof fn lemma_remove_after_insert(reduced: u64, position: u64)
    requires
        position < 64,
        reduced < 0x8000_0000_0000_0000,
    ensures
        spec_remove_bit(spec_insert_bit(reduced, position), position) == reduced,
{
    assert(spec_remove_bit(spec_insert_bit(reduced, position), position) == reduced)
        by (bit_vector)
        requires
            position < 64,
            reduced < 0x8000_0000_0000_0000,
    ;
}

/// Every index whose bit at `position` is zero is the image of the index
/// obtained by removing that bit.
pub proof fn lemma_insert_after_remove(full: u64, position: u64)
    requires
        position < 64,
        bit_of(full, position) == 0,
    ensures
        spec_insert_bit(spec_remove_bit(full, position), position) == full,
        spec_remove_bit(full, position) < 0x8000_0000_0000_0000,
{
    assert(spec_insert_bit(spec_remove_bit(full, position), position) == full) by (bit_vector)
        requires
            position < 64,
            bit_of(full, position) == 0,
    ;
    assert(spec_remove_bit(full, position) < 0x8000_0000_0000_0000) by (bit_vector)
        requires
            position < 64,
            bit_of(full, position) == 0,
    ;
}

/// Insertion keeps the order of the reduced indices.
pub proof fn lemma_insert_bit_increasing(first: u64, second: u64, position: u64)
    requires
        position < 64,
        first < second,
        second < 0x8000_0000_0000_0000,
    ensures
        spec_insert_bit(first, position) < spec_insert_bit(second, position),
{
    assert(spec_insert_bit(first, position) < spec_insert_bit(second, position)) by (bit_vector)
        requires
            position < 64,
            first < second,
            second < 0x8000_0000_0000_0000,
    ;
}

/// An index of the space of `qubits - 1` qubits is sent into the space of
/// `qubits` qubits, and removal goes the other way.
pub proof fn lemma_insert_bit_range(index: u64, position: u64, qubits: u64)
    requires
        position < qubits <= 63,
    ensures
        index < (1u64 << ((qubits - 1) as u64)) ==> spec_insert_bit(index, position) < (1u64
            << qubits),
        index < (1u64 << qubits) ==> spec_remove_bit(index, position) < (1u64 << ((qubits
            - 1) as u64)),
{
    assert(index < (1u64 << ((qubits - 1) as u64)) ==> spec_insert_bit(index, position) < (1u64
        << qubits)) by (bit_vector)
        requires
            position < qubits <= 63,
    ;
    assert(index < (1u64 << qubits) ==> spec_remove_bit(index, position) < (1u64 << ((qubits
        - 1) as u64))) by (bit_vector)
        requires
            position < qubits <= 63,
    ;
}

/// Opens a zero bit at `bit_position` of `reduced_index`: splits the index at
/// that position, moves the high part up by one and joins it with the low
/// part.
pub fn insert_bit(reduced_index: u64, bit_position: u32) -> (full: u64)
    requires
        bit_position < 64,
    ensures
        full == spec_insert_bit(reduced_index, bit_position as u64),
        bit_of(full, bit_position as u64) == 0,
        reduced_index < 0x8000_0000_0000_0000 ==> spec_remove_bit(full, bit_position as u64)
            == reduced_index,
{
    assert((1u64 << bit_position) >= 1) by (bit_vector)
        requires
            bit_position < 64,
    ;
    let low_bits: u64 = (1u64 << bit_position) - 1;
    let high: u64 = ((reduced_index >> bit_position) << 1) << bit_position;
    let low: u64 = reduced_index & low_bits;
    proof {
        lemma_insert_bit_bits(reduced_index, bit_position as u64, 0);
        if reduced_index < 0x8000_0000_0000_0000 {
            lemma_remove_after_insert(reduced_index, bit_position as u64);
        }
    }
    high | low
}

/// Whether the pairs `(targets[j], values[j])` fix distinct qubits of a space
/// of `qubit_count` qubits, each to 0 or 1.
pub open spec fn valid_fixed_bits(qubit_count: nat, targets: Seq<u32>, values: Seq<u32>) -> bool {
    &&& targets.len() == values.len()
    &&& forall|j: int| 0 <= j < targets.len() ==> (#[trigger] targets[j]) < qubit_count
    &&& forall|j: int| 0 <= j < values.len() ==> (#[trigger] values[j]) <= 1
    &&& forall|i: int, j: int|
        0 <= i < j < targets.len() ==> (#[trigger] targets[i]) != (#[trigger] targets[j])
}

/// The value that the pairs fix at `position`, where they fix one.
pub open spec fn fixed_value(targets: Seq<u32>, values: Seq<u32>, position: u32) -> u64 {
    values[targets.index_of(position)] as u64
}

/// How many of the positions below `upto` are left free by `targets`.
pub open spec fn free_below(targets: Seq<u32>, upto: nat) -> nat
    decreases upto,
{
    if upto == 0 {
        0
    } else if targets.contains((upto - 1) as u32) {
        free_below(targets, (upto - 1) as nat)
    } else {
        free_below(targets, (upto - 1) as nat) + 1
    }
}

/// The bit that the full index carries at `position`: the fixed value where
/// the position is a target, else the next unused bit of `reduced`.
pub open spec fn full_bit(reduced: u64, targets: Seq<u32>, values: Seq<u32>, position: nat) -> u64 {
    if targets.contains(position as u32) {
        fixed_value(targets, values, position as u32)
    } else {
        bit_of(reduced, free_below(targets, position) as u64)
    }
}

/// The low `upto` bits of the full index.
pub open spec fn spread(reduced: u64, targets: Seq<u32>, values: Seq<u32>, upto: nat) -> u64
    decreases upto,
{
    if upto == 0 {
        0
    } else {
        let position = (upto - 1) as nat;
        spread(reduced, targets, values, position) | (full_bit(
            reduced,
            targets,
            values,
            position,
        ) << (position as u64))
    }
}

/// The basis index of `qubit_count` qubits that carries `values[j]` at qubit
/// `targets[j]` and, on the remaining qubits in rising order, the bits of
/// `reduced`.
pub open spec fn spec_insert_bits(
    reduced: u64,
    targets: Seq<u32>,
    values: Seq<u32>,
    qubit_count: nat,
) -> u64 {
    spread(reduced, targets, values, qubit_count)
}

/// No more positions are free below `upto` than there are positions.
pub proof fn lemma_free_below_bound(targets: Seq<u32>, upto: nat)
    ensures
        free_below(targets, upto) <= upto,
    decreases upto,
{
    if upto > 0 {
        lemma_free_below_bound(targets, (upto - 1) as nat);
    }
}

/// Each bit that the pairs or the reduced index supply is 0 or 1.
pub proof fn lemma_full_bit_binary(
    reduced: u64,
    targets: Seq<u32>,
    values: Seq<u32>,
    position: nat,
)
    requires
        targets.len() == values.len(),
        forall|j: int| 0 <= j < values.len() ==> (#[trigger] values[j]) <= 1,
    ensures
        full_bit(reduced, targets, values, position) <= 1,
{
    if targets.contains(position as u32) {
        let j = targets.index_of(position as u32);
        assert(values[j] <= 1);
    } else {
        let shift = free_below(targets, position) as u64;
        assert(bit_of(reduced, shift) <= 1) by (bit_vector);
    }
}

/// The low `upto` bits of the full index stay below `2^upto`, and each of
/// them is the bit that [`full_bit`] names.
pub proof fn lemma_spread_bits(
    reduced: u64,
    targets: Seq<u32>,
    values: Seq<u32>,
    upto: nat,
    position: nat,
)
    requires
        upto <= 63,
        targets.len() == values.len(),
        forall|j: int| 0 <= j < values.len() ==> (#[trigger] values[j]) <= 1,
    ensures
        spread(reduced, targets, values, upto) < (1u64 << (upto as u64)),
        position < upto ==> bit_of(spread(reduced, targets, values, upto), position as u64)
            == full_bit(reduced, targets, values, position),
    decreases upto,
{
    if upto == 0 {
        assert(0 < (1u64 << 0u64)) by (bit_vector);
    } else {
        let last = (upto - 1) as nat;
        let below = spread(reduced, targets, values, last);
        let bit = full_bit(reduced, targets, values, last);
        let at = last as u64;
        let next = upto as u64;
        let whole = below | (bit << at);
        assert(whole == spread(reduced, targets, values, upto));
        lemma_spread_bits(reduced, targets, values, last, position);
        lemma_full_bit_binary(reduced, targets, values, last);
        assert(whole < (1u64 << next) && bit_of(whole, at) == bit) by (bit_vector)
            requires
                at < 63,
                next == at + 1,
                below < (1u64 << at),
                bit <= 1,
                whole == below | (bit << at),
        ;
        if position < last {
            let place = position as u64;
            assert(bit_of(whole, place) == bit_of(below, place)) by (bit_vector)
                requires
                    place < at,
                    at < 63,
                    bit <= 1,
                    whole == below | (bit << at),
            ;
        }
    }
}

/// Where no qubit is fixed, every position is free.
pub proof fn lemma_free_below_none(upto: nat)
    ensures
        free_below(Seq::<u32>::empty(), upto) == upto,
    decreases upto,
{
    if upto > 0 {
        lemma_free_below_none((upto - 1) as nat);
        assert(!Seq::<u32>::empty().contains((upto - 1) as u32));
    }
}

/// Fixing one more qubit takes one free position away from every range
/// that reaches beyond that qubit, and none from the others.
pub proof fn lemma_free_below_without_last(targets: Seq<u32>, upto: nat)
    requires
        targets.len() > 0,
        upto <= 64,
        forall|i: int, j: int|
            0 <= i < j < targets.len() ==> (#[trigger] targets[i]) != (#[trigger] targets[j]),
    ensures
        free_below(targets.drop_last(), upto) == free_below(targets, upto) + (if targets.last()
            < upto {
            1nat
        } else {
            0nat
        }),
    decreases upto,
{
    if upto > 0 {
        let position = (upto - 1) as u32;
        let fewer = targets.drop_last();
        lemma_free_below_without_last(targets, (upto - 1) as nat);
        if position == targets.last() {
            assert(targets[targets.len() - 1] == position);
            assert(targets.contains(position));
            if fewer.contains(position) {
                let i = choose|i: int| 0 <= i < fewer.len() && fewer[i] == position;
                assert(targets[i] == fewer[i]);
                assert(targets[i] != targets[targets.len() - 1]);
            }
        } else {
            if fewer.contains(position) {
                let i = choose|i: int| 0 <= i < fewer.len() && fewer[i] == position;
                assert(targets[i] == position);
                assert(targets.contains(position));
            }
            if targets.contains(position) {
                let i = choose|i: int| 0 <= i < targets.len() && targets[i] == position;
                assert(i < targets.len() - 1);
                assert(fewer[i] == position);
                assert(fewer.contains(position));
            }
        }
    }
}

/// Distinct fixed qubits of a space of `qubit_count` qubits leave as many
/// qubits free as they are fewer than `qubit_count`.
pub proof fn lemma_free_count(targets: Seq<u32>, qubit_count: nat)
    requires
        qubit_count <= 64,
        forall|j: int| 0 <= j < targets.len() ==> (#[trigger] targets[j]) < qubit_count,
        forall|i: int, j: int|
            0 <= i < j < targets.len() ==> (#[trigger] targets[i]) != (#[trigger] targets[j]),
    ensures
        free_below(targets, qubit_count) + targets.len() == qubit_count,
    decreases targets.len(),
{
    if targets.len() == 0 {
        assert(targets =~= Seq::<u32>::empty());
        lemma_free_below_none(qubit_count);
    } else {
        let fewer = targets.drop_last();
        assert forall|j: int| 0 <= j < fewer.len() implies (#[trigger] fewer[j]) < qubit_count by {
            assert(fewer[j] == targets[j]);
        }
        assert forall|i: int, j: int| 0 <= i < j < fewer.len() implies (#[trigger] fewer[i]) != (
        #[trigger] fewer[j]) by {
            assert(fewer[i] == targets[i] && fewer[j] == targets[j]);
        }
        lemma_free_count(fewer, qubit_count);
        lemma_free_below_without_last(targets, qubit_count);
        assert(targets.last() == targets[targets.len() - 1]);
    }
}

/// The count of free positions never falls as the range grows, and grows by
/// one exactly across a free position.
pub proof fn lemma_free_below_rising(targets: Seq<u32>, lower: nat, upper: nat)
    requires
        lower <= upper,
    ensures
        free_below(targets, lower) <= free_below(targets, upper),
        lower < upper && !targets.contains(lower as u32) ==> free_below(targets, lower)
            < free_below(targets, upper),
    decreases upper - lower,
{
    if lower < upper {
        lemma_free_below_rising(targets, lower, (upper - 1) as nat);
    }
}

/// Every number below the count of free positions is the rank of a free
/// position.
pub proof fn lemma_free_position(targets: Seq<u32>, upto: nat, rank: nat) -> (position: nat)
    requires
        rank < free_below(targets, upto),
    ensures
        position < upto,
        !targets.contains(position as u32),
        free_below(targets, position) == rank,
    decreases upto,
{
    let last = (upto - 1) as nat;
    if rank < free_below(targets, last) {
        lemma_free_position(targets, last, rank)
    } else {
        last
    }
}

/// Two indices below `2^width` with the same low `width` bits are equal.
pub proof fn lemma_equal_bits(first: u64, second: u64, width: nat)
    requires
        width <= 63,
        forall|position: nat|
            position < width ==> bit_of(first, position as u64) == #[trigger] bit_of(
                second,
                position as u64,
            ),
    ensures
        first & low_mask(width as u64) == second & low_mask(width as u64),
        first < (1u64 << (width as u64)) && second < (1u64 << (width as u64)) ==> first == second,
    decreases width,
{
    let w = width as u64;
    if width == 0 {
        assert(first & low_mask(0) == second & low_mask(0)) by (bit_vector);
    } else {
        let below = (width - 1) as u64;
        lemma_equal_bits(first, second, (width - 1) as nat);
        assert(bit_of(first, below) == bit_of(second, ((width - 1) as nat) as u64));
        assert(first & low_mask(w) == second & low_mask(w)) by (bit_vector)
            requires
                below < 63,
                w == below + 1,
                first & low_mask(below) == second & low_mask(below),
                bit_of(first, below) == bit_of(second, below),
        ;
    }
    assert(first < (1u64 << w) ==> first & low_mask(w) == first) by (bit_vector)
        requires
            w <= 63,
    ;
    assert(second < (1u64 << w) ==> second & low_mask(w) == second) by (bit_vector)
        requires
            w <= 63,
    ;
}

/// The reduced index of a full one: the bits of `full` at the free positions
/// below `upto`, closed up in rising order.
pub open spec fn gathered(full: u64, targets: Seq<u32>, upto: nat) -> u64
    decreases upto,
{
    if upto == 0 {
        0
    } else {
        let position = (upto - 1) as nat;
        if targets.contains(position as u32) {
            gathered(full, targets, position)
        } else {
            gathered(full, targets, position) | (bit_of(full, position as u64) << (free_below(
                targets,
                position,
            ) as u64))
        }
    }
}

/// The reduced index of `full` in a space of `qubit_count` qubits.
pub open spec fn spec_remove_bits(full: u64, targets: Seq<u32>, qubit_count: nat) -> u64 {
    gathered(full, targets, qubit_count)
}

/// A gathered index lies below `2^f`, where `f` counts the free positions
/// gathered from, and its bit at the rank of a free position is the bit of
/// `full` at that position.
pub proof fn lemma_gathered_bits(full: u64, targets: Seq<u32>, upto: nat, position: nat)
    requires
        upto <= 63,
    ensures
        gathered(full, targets, upto) < (1u64 << (free_below(targets, upto) as u64)),
        position < upto && !targets.contains(position as u32) ==> bit_of(
            gathered(full, targets, upto),
            free_below(targets, position) as u64,
        ) == bit_of(full, position as u64),
    decreases upto,
{
    lemma_free_below_bound(targets, upto);
    if upto == 0 {
        assert(0 < (1u64 << 0u64)) by (bit_vector);
    } else {
        let last = (upto - 1) as nat;
        lemma_gathered_bits(full, targets, last, position);
        lemma_free_below_bound(targets, last);
        let below = gathered(full, targets, last);
        if !targets.contains(last as u32) {
            let rank = free_below(targets, last) as u64;
            let next = free_below(targets, upto) as u64;
            let from = last as u64;
            let bit = bit_of(full, from);
            let whole = below | (bit << rank);
            assert(whole == gathered(full, targets, upto));
            assert(whole < (1u64 << next) && bit_of(whole, rank) == bit) by (bit_vector)
                requires
                    rank < 63,
                    next == rank + 1,
                    below < (1u64 << rank),
                    bit == bit_of(full, from),
                    whole == below | (bit << rank),
            ;
            if position < last && !targets.contains(position as u32) {
                lemma_free_below_rising(targets, position, last);
                let place = free_below(targets, position) as u64;
                assert(bit_of(whole, place) == bit_of(below, place)) by (bit_vector)
                    requires
                        place < rank,
                        rank < 63,
                        bit == bit_of(full, from),
                        whole == below | (bit << rank),
                ;
            }
        }
    }
}

/// Every basis index that carries the fixed values on the target qubits is
/// the full index of its reduced index, and that reduced index lies in the
/// space of the free qubits.
pub proof fn lemma_insert_after_remove_bits(
    full: u64,
    targets: Seq<u32>,
    values: Seq<u32>,
    qubit_count: nat,
)
    requires
        qubit_count <= 63,
        valid_fixed_bits(qubit_count, targets, values),
        full < (1u64 << (qubit_count as u64)),
        forall|j: int|
            0 <= j < targets.len() ==> bit_of(full, (#[trigger] targets[j]) as u64) == values[j],
    ensures
        targets.len() <= qubit_count,
        spec_remove_bits(full, targets, qubit_count) < (1u64 << ((qubit_count
            - targets.len()) as u64)),
        spec_insert_bits(spec_remove_bits(full, targets, qubit_count), targets, values, qubit_count)
            == full,
{
    let reduced = spec_remove_bits(full, targets, qubit_count);
    let again = spec_insert_bits(reduced, targets, values, qubit_count);
    lemma_free_count(targets, qubit_count);
    lemma_gathered_bits(full, targets, qubit_count, 0);
    lemma_spread_bits(reduced, targets, values, qubit_count, 0);
    assert forall|position: nat| position < qubit_count implies bit_of(again, position as u64)
        == #[trigger] bit_of(full, position as u64) by {
        lemma_spread_bits(reduced, targets, values, qubit_count, position);
        if targets.contains(position as u32) {
            let j = targets.index_of(position as u32);
            assert(targets[j] == position as u32);
        } else {
            lemma_gathered_bits(full, targets, qubit_count, position);
        }
    }
    lemma_equal_bits(again, full, qubit_count);
}

/// Distinct reduced indices of the space of the free qubits have distinct
/// full indices: removing the fixed bits gives the reduced index back.
pub proof fn lemma_remove_after_insert_bits(
    reduced: u64,
    targets: Seq<u32>,
    values: Seq<u32>,
    qubit_count: nat,
)
    requires
        qubit_count <= 63,
        valid_fixed_bits(qubit_count, targets, values),
        targets.len() <= qubit_count,
        reduced < (1u64 << ((qubit_count - targets.len()) as u64)),
    ensures
        spec_remove_bits(spec_insert_bits(reduced, targets, values, qubit_count), targets, qubit_count)
            == reduced,
{
    let full = spec_insert_bits(reduced, targets, values, qubit_count);
    let again = spec_remove_bits(full, targets, qubit_count);
    let free = (qubit_count - targets.len()) as nat;
    lemma_free_count(targets, qubit_count);
    lemma_gathered_bits(full, targets, qubit_count, 0);
    assert forall|rank: nat| rank < free implies bit_of(again, rank as u64) == #[trigger] bit_of(
        reduced,
        rank as u64,
    ) by {
        let position = lemma_free_position(targets, qubit_count, rank);
        lemma_gathered_bits(full, targets, qubit_count, position);
        lemma_spread_bits(reduced, targets, values, qubit_count, position);
    }
    lemma_equal_bits(again, reduced, free);
}

/// Where one qubit is fixed, the positions up to it keep their rank and the
/// positions beyond it lose one.
pub proof fn lemma_free_below_single(fixed: u32, upto: nat)
    requires
        upto <= 64,
    ensures
        free_below(seq![fixed], upto) == if upto <= fixed {
            upto
        } else {
            (upto - 1) as nat
        },
    decreases upto,
{
    if upto > 0 {
        lemma_free_below_single(fixed, (upto - 1) as nat);
        let position = (upto - 1) as u32;
        if position == fixed {
            assert(seq![fixed][0] == position);
        }
    }
}

/// Fixing the single qubit `position` to 0 is inserting a zero bit at
/// `position`.
pub proof fn lemma_insert_bits_single(reduced: u64, position: u32, qubit_count: nat)
    requires
        position < qubit_count <= 63,
        reduced < (1u64 << ((qubit_count - 1) as u64)),
    ensures
        spec_insert_bits(reduced, seq![position], seq![0u32], qubit_count) == spec_insert_bit(
            reduced,
            position as u64,
        ),
{
    let targets = seq![position];
    let values = seq![0u32];
    let many = spec_insert_bits(reduced, targets, values, qubit_count);
    let one = spec_insert_bit(reduced, position as u64);
    assert(targets[0] == position);
    lemma_spread_bits(reduced, targets, values, qubit_count, 0);
    lemma_insert_bit_range(reduced, position as u64, qubit_count as u64);
    assert forall|place: nat| place < qubit_count implies bit_of(many, place as u64)
        == #[trigger] bit_of(one, place as u64) by {
        lemma_spread_bits(reduced, targets, values, qubit_count, place);
        lemma_insert_bit_bits(reduced, position as u64, place as u64);
        lemma_free_below_single(position, place);
        if place == position {
            assert(targets.contains(place as u32));
            let j = targets.index_of(place as u32);
            assert(values[j] == 0);
        } else {
            if targets.contains(place as u32) {
                let j = choose|j: int| 0 <= j < targets.len() && targets[j] == place as u32;
                assert(false);
            }
        }
    }
    lemma_equal_bits(many, one, qubit_count);
}

/// The first place of `position` among `targets`, if it is one of them.
pub fn find_target(targets: &[u32], position: u32) -> (found: Option<usize>)
    ensures
        match found {
            Some(j) => j < targets.len() && targets[j as int] == position && forall|i: int|
                0 <= i < j ==> targets[i] != position,
            None => !targets@.contains(position),
        },
{
    let mut j: usize = 0;
    while j < targets.len()
        invariant
            j <= targets.len(),
            forall|i: int| 0 <= i < j ==> targets[i] != position,
        decreases targets.len() - j,
    {
        if targets[j] == position {
            return Some(j);
        }
        j += 1;
    }
    None
}

/// Builds the full basis index from a reduced one: walks the fixed qubits
/// upward, opens a bit for each with [`insert_bit`] and sets it to the
/// required value. Going upward, every bit below the one being opened is
/// already in its place. The pairs may come in any order; bits of
/// `reduced_index` beyond the free qubits are dropped.
pub fn insert_bits(reduced_index: u64, targets: &[u32], values: &[u32], qubit_count: usize) -> (full:
    u64)
    requires
        qubit_count <= MAX_QUBITS,
        valid_fixed_bits(qubit_count as nat, targets@, values@),
    ensures
        full == spec_insert_bits(reduced_index, targets@, values@, qubit_count as nat),
        full < (1u64 << (qubit_count as u64)),
        forall|j: int|
            0 <= j < targets.len() ==> bit_of(full, (#[trigger] targets[j]) as u64) == values[j],
        forall|position: nat|
            position < qubit_count ==> bit_of(full, position as u64) == #[trigger] full_bit(
                reduced_index,
                targets@,
                values@,
                position,
            ),
{
    let mut full: u64 = reduced_index;
    let mut position: usize = 0;
    proof {
        assert(reduced_index == 0 | ((reduced_index >> 0u64) << 0u64)) by (bit_vector);
    }
    while position < qubit_count
        invariant
            position <= qubit_count <= 63,
            valid_fixed_bits(qubit_count as nat, targets@, values@),
            full == spread(reduced_index, targets@, values@, position as nat) | ((reduced_index
                >> (free_below(targets@, position as nat) as u64)) << (position as u64)),
        decreases qubit_count - position,
    {
        let ghost free = free_below(targets@, position as nat) as u64;
        let ghost placed = spread(reduced_index, targets@, values@, position as nat);
        let ghost rest = reduced_index >> free;
        proof {
            lemma_free_below_bound(targets@, position as nat);
            lemma_spread_bits(reduced_index, targets@, values@, position as nat, 0);
        }
        let at: u32 = position as u32;
        match find_target(targets, at) {
            Some(j) => {
                let value: u64 = values[j] as u64;
                let opened: u64 = insert_bit(full, at);
                proof {
                    let chosen = targets@.index_of(at);
                    assert(targets@[chosen] == at);
                    assert(chosen == j);
                    let place = at as u64;
                    assert((opened | (value << place)) == ((placed | (value << place)) | (rest << ((
                    place + 1) as u64)))) by (bit_vector)
                        requires
                            place < 63,
                            placed < (1u64 << place),
                            value <= 1,
                            full == placed | (rest << place),
                            opened == spec_insert_bit(full, place),
                    ;
                }
                full = opened | (value << at);
            },
            None => {
                proof {
                    let place = at as u64;
                    assert((reduced_index >> free) >> 1 == reduced_index >> ((free + 1) as u64))
                        by (bit_vector)
                        requires
                            free < 63,
                    ;
                    assert((placed | (rest << place)) == ((placed | ((rest & 1) << place)) | ((rest
                        >> 1) << ((place + 1) as u64)))) by (bit_vector)
                        requires
                            place < 63,
                    ;
                    assert(bit_of(reduced_index, free) == rest & 1);
                }
            },
        }
        position += 1;
    }
    proof {
        let width = qubit_count as u64;
        let placed = spread(reduced_index, targets@, values@, qubit_count as nat);
        let rest = reduced_index >> (free_below(targets@, qubit_count as nat) as u64);
        lemma_spread_bits(reduced_index, targets@, values@, qubit_count as nat, 0);
        assert((1u64 << width) >= 1 && ((placed | (rest << width)) & (((1u64 << width) - 1) as u64))
            == placed) by (bit_vector)
            requires
                width <= 63,
                placed < (1u64 << width),
        ;
    }
    let full: u64 = full & ((1u64 << (qubit_count as u64)) - 1);
    proof {
        lemma_spread_bits(reduced_index, targets@, values@, qubit_count as nat, 0);
        assert forall|place: nat| place < qubit_count implies bit_of(full, place as u64)
            == #[trigger] full_bit(reduced_index, targets@, values@, place) by {
            lemma_spread_bits(reduced_index, targets@, values@, qubit_count as nat, place);
        }
        assert forall|j: int| 0 <= j < targets.len() implies bit_of(
            full,
            (#[trigger] targets[j]) as u64,
        ) == values[j] by {
            let place = targets[j] as nat;
            assert(targets@.contains(targets@[j]));
            let chosen = targets@.index_of(targets[j]);
            assert(targets@[chosen] == targets@[j]);
            assert(chosen == j);
            assert(full_bit(reduced_index, targets@, values@, place) == values[j]);
        }
    }
    full
}

/// Whether `order` names each of the `qubit_count` qubits exactly once.
pub open spec fn valid_order(qubit_count: nat, order: Seq<u32>) -> bool {
    &&& order.len() == qubit_count
    &&& forall|k: int| 0 <= k < order.len() ==> (#[trigger] order[k]) < qubit_count
    &&& forall|i: int, j: int|
        0 <= i < j < order.len() ==> (#[trigger] order[i]) != (#[trigger] order[j])
}

/// The index made of the low `upto` bits of `index`, bit `k` moved to
/// position `order[k]`.
pub open spec fn permuted(index: u64, order: Seq<u32>, upto: nat) -> u64
    decreases upto,
{
    if upto == 0 {
        0
    } else {
        let k = (upto - 1) as nat;
        permuted(index, order, k) | (bit_of(index, k as u64) << (order[k as int] as u64))
    }
}

/// The index whose bit `order[k]` is bit `k` of `index`, for every qubit `k`.
pub open spec fn spec_permute_index(index: u64, order: Seq<u32>) -> u64 {
    permuted(index, order, order.len())
}

/// A permuted index stays within the space of its qubits.
pub proof fn lemma_permuted_range(index: u64, order: Seq<u32>, upto: nat, qubit_count: nat)
    requires
        upto <= order.len(),
        qubit_count <= 63,
        forall|k: int| 0 <= k < order.len() ==> (#[trigger] order[k]) < qubit_count,
    ensures
        permuted(index, order, upto) < (1u64 << (qubit_count as u64)),
    decreases upto,
{
    let width = qubit_count as u64;
    if upto == 0 {
        assert(0 < (1u64 << width)) by (bit_vector)
            requires
                width <= 63,
        ;
    } else {
        let k = (upto - 1) as nat;
        lemma_permuted_range(index, order, k, qubit_count);
        let below = permuted(index, order, k);
        let from = k as u64;
        let to = order[k as int] as u64;
        assert((below | (bit_of(index, from) << to)) < (1u64 << width)) by (bit_vector)
            requires
                below < (1u64 << width),
                to < width,
                width <= 63,
        ;
    }
}

/// Where `order` names each qubit once, bit `order[k]` of the permuted index
/// is bit `k` of `index`, and a position that no `order[k]` names is zero.
pub proof fn lemma_permuted_bits(index: u64, order: Seq<u32>, upto: nat, position: u64)
    requires
        upto <= order.len() <= 63,
        valid_order(order.len(), order),
        position < 64,
    ensures
        forall|k: int|
            0 <= k < upto && #[trigger] order[k] == position ==> bit_of(
                permuted(index, order, upto),
                position,
            ) == bit_of(index, k as u64),
        (forall|k: int| 0 <= k < upto ==> #[trigger] order[k] != position) ==> bit_of(
            permuted(index, order, upto),
            position,
        ) == 0,
    decreases upto,
{
    if upto == 0 {
        assert(bit_of(0, position) == 0) by (bit_vector);
    } else {
        let last = (upto - 1) as nat;
        lemma_permuted_bits(index, order, last, position);
        let below = permuted(index, order, last);
        let from = last as u64;
        let to = order[last as int] as u64;
        let bit = bit_of(index, from);
        let whole = below | (bit << to);
        assert(whole == permuted(index, order, upto));
        if to == position {
            assert forall|k: int| 0 <= k < last implies #[trigger] order[k] != position by {
                assert(order[k] != order[last as int]);
            }
            assert(bit_of(whole, position) == bit) by (bit_vector)
                requires
                    bit == bit_of(index, from),
                    whole == below | (bit << to),
                    to == position,
                    position < 64,
                    bit_of(below, position) == 0,
            ;
        } else {
            assert(bit_of(whole, position) == bit_of(below, position)) by (bit_vector)
                requires
                    bit == bit_of(index, from),
                    whole == below | (bit << to),
                    to != position,
                    to < 64,
                    position < 64,
            ;
        }
    }
}

/// Under the order that leaves every qubit in place, the low `upto` bits of
/// the permuted index are those of `index`.
pub proof fn lemma_permuted_identity(index: u64, order: Seq<u32>, upto: nat)
    requires
        upto <= order.len() <= 63,
        forall|k: int| 0 <= k < order.len() ==> #[trigger] order[k] == k,
    ensures
        permuted(index, order, upto) == index & low_mask(upto as u64),
        index < (1u64 << (upto as u64)) ==> permuted(index, order, upto) == index,
    decreases upto,
{
    let width = upto as u64;
    if upto == 0 {
        assert(0 == index & low_mask(0)) by (bit_vector);
    } else {
        let last = (upto - 1) as nat;
        lemma_permuted_identity(index, order, last);
        let from = last as u64;
        assert(order[last as int] as u64 == from);
        assert(((index & low_mask(from)) | (bit_of(index, from) << from)) == index & low_mask(
            width,
        )) by (bit_vector)
            requires
                from < 63,
                width == from + 1,
        ;
    }
    assert(index < (1u64 << width) ==> index & low_mask(width) == index) by (bit_vector)
        requires
            width <= 63,
    ;
}

/// Reordering by `order` and then by the order that undoes it gives the
/// index back: no two indices are sent to one.
pub proof fn lemma_permute_there_and_back(index: u64, order: Seq<u32>, inverse: Seq<u32>)
    requires
        order.len() <= 63,
        valid_order(order.len(), order),
        valid_order(order.len(), inverse),
        forall|k: int| 0 <= k < order.len() ==> inverse[(#[trigger] order[k]) as int] == k,
        index < (1u64 << (order.len() as u64)),
    ensures
        spec_permute_index(spec_permute_index(index, order), inverse) == index,
{
    let count = order.len();
    let there = spec_permute_index(index, order);
    let back = spec_permute_index(there, inverse);
    lemma_permuted_range(there, inverse, count, count);
    assert forall|position: nat| position < count implies bit_of(back, position as u64)
        == #[trigger] bit_of(index, position as u64) by {
        let k = position as int;
        let through = order[k];
        assert(inverse[through as int] == k);
        lemma_permuted_bits(there, inverse, count, position as u64);
        assert(bit_of(back, position as u64) == bit_of(there, through as u64));
        lemma_permuted_bits(index, order, count, through as u64);
    }
    lemma_equal_bits(back, index, count);
}

/// The basis index that `index` comes from when the qubits are reordered:
/// bit `order[k]` of the result is bit `k` of `index`.
pub fn permute_index(index: u64, order: &[u32]) -> (source: u64)
    requires
        order.len() <= MAX_QUBITS,
        forall|k: int| 0 <= k < order.len() ==> (#[trigger] order[k]) < order.len(),
    ensures
        source == spec_permute_index(index, order@),
        source < (1u64 << (order.len() as u64)),
{
    let mut source: u64 = 0;
    let mut k: usize = 0;
    while k < order.len()
        invariant
            k <= order.len() <= 63,
            forall|i: int| 0 <= i < order.len() ==> (#[trigger] order[i]) < order.len(),
            source == permuted(index, order@, k as nat),
        decreases order.len() - k,
    {
        let bit: u64 = (index >> (k as u64)) & 1;
        source = source | (bit << order[k]);
        k += 1;
    }
    proof {
        lemma_permuted_range(index, order@, order.len() as nat, order.len() as nat);
    }
    source
}

/// Whether every entry of `list` is below `bound`.
pub fn all_below(list: &[u32], bound: usize) -> (ok: bool)
    ensures
        ok == (forall|j: int| 0 <= j < list.len() ==> (#[trigger] list[j]) < bound),
{
    let mut j: usize = 0;
    while j < list.len()
        invariant
            j <= list.len(),
            forall|i: int| 0 <= i < j ==> (#[trigger] list[i]) < bound,
        decreases list.len() - j,
    {
        if list[j] as u64 >= bound as u64 {
            assert(!(list[j as int] < bound));
            return false;
        }
        j += 1;
    }
    true
}

/// Whether no entry of `list` occurs twice.
pub fn all_distinct(list: &[u32]) -> (ok: bool)
    ensures
        ok == (forall|i: int, j: int|
            0 <= i < j < list.len() ==> (#[trigger] list[i]) != (#[trigger] list[j])),
{
    let mut j: usize = 0;
    while j < list.len()
        invariant
            j <= list.len(),
            forall|a: int, b: int| 0 <= a < b < j ==> (#[trigger] list[a]) != (#[trigger] list[b]),
        decreases list.len() - j,
    {
        let mut i: usize = 0;
        while i < j
            invariant
                i <= j < list.len(),
                forall|a: int| 0 <= a < i ==> (#[trigger] list[a]) != list[j as int],
            decreases j - i,
        {
            if list[i] == list[j] {
                assert(!(list[i as int] != list[j as int]));
                return false;
            }
            i += 1;
        }
        j += 1;
    }
    true
}

/// Whether the pairs `(targets[j], values[j])` fix distinct qubits of a space
/// of `qubit_count` qubits, each to 0 or 1.
pub fn check_fixed_bits(qubit_count: usize, targets: &[u32], values: &[u32]) -> (ok: bool)
    ensures
        ok == valid_fixed_bits(qubit_count as nat, targets@, values@),
{
    targets.len() == values.len() && all_below(targets, qubit_count) && all_below(values, 2)
        && all_distinct(targets)
}

/// Whether `order` names each of the `qubit_count` qubits exactly once.
pub fn check_order(qubit_count: usize, order: &[u32]) -> (ok: bool)
    ensures
        ok == valid_order(qubit_count as nat, order@),
{
    order.len() == qubit_count && all_below(order, qubit_count) && all_distinct(order)
}

} // verus!
