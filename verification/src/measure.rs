//! Which basis states a measurement outcome selects, and how draws are
//! turned into sampled basis states.
//!
//! The probabilities themselves are sums of squared magnitudes and are
//! taken outside this library; here stand the index sets they range over.
use vstd::prelude::*;
use crate::bits::bit_of;
use crate::bits::check_fixed_bits;
use crate::bits::insert_bit;
use crate::bits::insert_bits;
use crate::bits::lemma_insert_after_remove;
use crate::bits::lemma_free_count;
use crate::bits::lemma_insert_after_remove_bits;
use crate::bits::lemma_insert_bit_range;
use crate::bits::spec_insert_bit;
use crate::bits::spec_insert_bits;
use crate::bits::spec_remove_bit;
use crate::bits::valid_fixed_bits;
use crate::state::dimension;
use crate::state::lemma_dimension_shift;
use crate::state::spec_dimension;
use crate::state::well_formed;
use crate::state::StateErr;
use crate::state::StateRef;

verus! {

/// The basis states of `qubits` qubits in which qubit `qbit` is zero are
/// exactly the images, under bit insertion at `qbit`, of the indices of the
/// space with one qubit less.
pub proof fn lemma_zero_states_are_insertions(qubits: nat, qbit: nat, index: u64)
    requires
        qbit < qubits <= 63,
        index < spec_dimension(qubits),
    ensures
        bit_of(index, qbit as u64) == 0 <==> exists|k: u64|
            k < spec_dimension((qubits - 1) as nat) && #[trigger] spec_insert_bit(k, qbit as u64)
                == index,
{
    let position = qbit as u64;
    lemma_dimension_shift(qubits);
    lemma_dimension_shift((qubits - 1) as nat);
    lemma_insert_bit_range(index, position, qubits as u64);
    if bit_of(index, position) == 0 {
        lemma_insert_after_remove(index, position);
        let k = spec_remove_bit(index, position);
        assert(k < spec_dimension((qubits - 1) as nat) && spec_insert_bit(k, position) == index);
    }
    if exists|k: u64|
        k < spec_dimension((qubits - 1) as nat) && #[trigger] spec_insert_bit(k, position)
            == index {
        let k = choose|k: u64|
            k < spec_dimension((qubits - 1) as nat) && #[trigger] spec_insert_bit(k, position)
                == index;
        crate::bits::lemma_insert_bit_bits(k, position, 0);
    }
}

/// The basis states over which the probability of measuring 0 on qubit
/// `qbit` is summed, in rising order: entry `k` is `k` with a zero bit
/// inserted at `qbit`.
pub fn zero_probability_indices<S: StateRef>(state: &S, qbit: usize) -> (result: Result<
    Vec<u64>,
    StateErr,
>)
    requires
        well_formed(state),
    ensures
        qbit >= state.qubits() ==> (result matches Err(StateErr::InvalidTargetQubitIndex(index))
            && index == qbit),
        qbit < state.qubits() ==> (result matches Ok(list) && list@.len() == spec_dimension(
            (state.qubits() - 1) as nat,
        ) && forall|k: int|
            0 <= k < list@.len() ==> {
                &&& #[trigger] list@[k] == spec_insert_bit(k as u64, qbit as u64)
                &&& list@[k] < spec_dimension(state.qubits())
                &&& bit_of(list@[k], qbit as u64) == 0
            }),
{
    let qubit_count = state.qubit_count();
    if qbit >= qubit_count {
        return Err(StateErr::InvalidTargetQubitIndex(qbit));
    }
    let half: u64 = dimension(qubit_count - 1);
    let mut list: Vec<u64> = Vec::new();
    let mut k: u64 = 0;
    while k < half
        invariant
            k <= half,
            half == spec_dimension((qubit_count - 1) as nat),
            half == (1u64 << ((qubit_count - 1) as u64)),
            qbit < qubit_count <= 63,
            qubit_count == state.qubits(),
            list@.len() == k,
            forall|i: int|
                0 <= i < k ==> {
                    &&& #[trigger] list@[i] == spec_insert_bit(i as u64, qbit as u64)
                    &&& list@[i] < spec_dimension(state.qubits())
                    &&& bit_of(list@[i], qbit as u64) == 0
                },
        decreases half - k,
    {
        let full: u64 = insert_bit(k, qbit as u32);
        proof {
            lemma_insert_bit_range(k, qbit as u64, qubit_count as u64);
            lemma_dimension_shift(qubit_count as nat);
        }
        list.push(full);
        k += 1;
    }
    Ok(list)
}

/// The basis states over which the probability of measuring `values[j]` on
/// qubit `targets[j]`, for every `j`, is summed: entry `k` carries the fixed
/// values on the target qubits and the bits of `k` on the others. The pairs
/// may come in any order.
pub fn marginal_probability_indices<S: StateRef>(
    state: &S,
    target_qubit_index_list: &[u32],
    measured_value_list: &[u32],
) -> (result: Result<Vec<u64>, StateErr>)
    requires
        well_formed(state),
    ensures
        target_qubit_index_list.len() != measured_value_list.len() ==> result.is_err(),
        result.is_err() <==> !valid_fixed_bits(
            state.qubits(),
            target_qubit_index_list@,
            measured_value_list@,
        ),
        result matches Err(error) ==> (error matches StateErr::InvalidTargetList(list) && list@
            == target_qubit_index_list@),
        result matches Ok(list) ==> list@.len() == spec_dimension(
            (state.qubits() - target_qubit_index_list.len()) as nat,
        ) && forall|k: int|
            0 <= k < list@.len() ==> {
                &&& #[trigger] list@[k] == spec_insert_bits(
                    k as u64,
                    target_qubit_index_list@,
                    measured_value_list@,
                    state.qubits(),
                )
                &&& list@[k] < spec_dimension(state.qubits())
                &&& forall|j: int|
                    0 <= j < target_qubit_index_list.len() ==> bit_of(
                        list@[k],
                        (#[trigger] target_qubit_index_list[j]) as u64,
                    ) == measured_value_list[j]
            },
{
    let qubit_count = state.qubit_count();
    let targets = target_qubit_index_list;
    let values = measured_value_list;
    if !check_fixed_bits(qubit_count, targets, values) {
        return Err(StateErr::InvalidTargetList(vstd::slice::slice_to_vec(targets)));
    }
    proof {
        lemma_free_count(targets@, qubit_count as nat);
    }
    let free: u64 = dimension(qubit_count - targets.len());
    let mut list: Vec<u64> = Vec::new();
    let mut k: u64 = 0;
    while k < free
        invariant
            k <= free,
            free == spec_dimension((qubit_count - targets.len()) as nat),
            targets.len() <= qubit_count <= 63,
            qubit_count == state.qubits(),
            valid_fixed_bits(qubit_count as nat, targets@, values@),
            list@.len() == k,
            forall|i: int|
                0 <= i < k ==> {
                    &&& #[trigger] list@[i] == spec_insert_bits(
                        i as u64,
                        targets@,
                        values@,
                        qubit_count as nat,
                    )
                    &&& list@[i] < spec_dimension(qubit_count as nat)
                    &&& forall|j: int|
                        0 <= j < targets.len() ==> bit_of(list@[i], (#[trigger] targets[j]) as u64)
                            == values[j]
                },
        decreases free - k,
    {
        let full: u64 = insert_bits(k, targets, values, qubit_count);
        proof {
            lemma_dimension_shift(qubit_count as nat);
        }
        list.push(full);
        k += 1;
    }
    Ok(list)
}

/// The basis states of `qubits` qubits that carry `values[j]` on qubit
/// `targets[j]`, for every `j`, are exactly the full indices of the reduced
/// indices of the space of the remaining qubits.
pub proof fn lemma_marginal_states_are_insertions(
    qubits: nat,
    targets: Seq<u32>,
    values: Seq<u32>,
    index: u64,
)
    requires
        qubits <= 63,
        valid_fixed_bits(qubits, targets, values),
        index < spec_dimension(qubits),
    ensures
        targets.len() <= qubits,
        (forall|j: int|
            0 <= j < targets.len() ==> bit_of(index, (#[trigger] targets[j]) as u64) == values[j])
            <==> exists|k: u64|
            k < spec_dimension((qubits - targets.len()) as nat) && #[trigger] spec_insert_bits(
                k,
                targets,
                values,
                qubits,
            ) == index,
{
    lemma_free_count(targets, qubits);
    lemma_dimension_shift(qubits);
    lemma_dimension_shift((qubits - targets.len()) as nat);
    if forall|j: int|
        0 <= j < targets.len() ==> bit_of(index, (#[trigger] targets[j]) as u64) == values[j] {
        lemma_insert_after_remove_bits(index, targets, values, qubits);
        let k = crate::bits::spec_remove_bits(index, targets, qubits);
        assert(k < spec_dimension((qubits - targets.len()) as nat) && spec_insert_bits(
            k,
            targets,
            values,
            qubits,
        ) == index);
    }
    if exists|k: u64|
        k < spec_dimension((qubits - targets.len()) as nat) && #[trigger] spec_insert_bits(
            k,
            targets,
            values,
            qubits,
        ) == index {
        let k = choose|k: u64|
            k < spec_dimension((qubits - targets.len()) as nat) && #[trigger] spec_insert_bits(
                k,
                targets,
                values,
                qubits,
            ) == index;
        assert forall|j: int| 0 <= j < targets.len() implies bit_of(
            index,
            (#[trigger] targets[j]) as u64,
        ) == values[j] by {
            let place = targets[j] as nat;
            crate::bits::lemma_spread_bits(k, targets, values, qubits, place);
            assert(targets.contains(targets[j]));
            let chosen = targets.index_of(targets[j]);
            assert(targets[chosen] == targets[j]);
            assert(chosen == j);
        }
    }
}

/// Each basis state lies in exactly one of the two sets that a qubit's
/// probabilities are summed over: the states that carry 0 on the qubit and
/// the states that carry 1 on it.
pub proof fn lemma_zero_and_one_states_partition(qubits: nat, qbit: u32, index: u64)
    requires
        qbit < qubits <= 63,
        index < spec_dimension(qubits),
    ensures
        (exists|k: u64|
            k < spec_dimension((qubits - 1) as nat) && #[trigger] spec_insert_bits(
                k,
                seq![qbit],
                seq![0u32],
                qubits,
            ) == index) != (exists|k: u64|
            k < spec_dimension((qubits - 1) as nat) && #[trigger] spec_insert_bits(
                k,
                seq![qbit],
                seq![1u32],
                qubits,
            ) == index),
{
    let targets = seq![qbit];
    let position = qbit as u64;
    assert(targets[0] == qbit);
    assert(bit_of(index, position) == 0 || bit_of(index, position) == 1) by (bit_vector);
    lemma_marginal_states_are_insertions(qubits, targets, seq![0u32], index);
    lemma_marginal_states_are_insertions(qubits, targets, seq![1u32], index);
    assert(targets.len() == 1);
    if bit_of(index, position) == 0 {
        assert forall|j: int| 0 <= j < targets.len() implies bit_of(
            index,
            (#[trigger] targets[j]) as u64,
        ) == seq![0u32][j] by {}
        assert(!(bit_of(index, targets[0] as u64) == seq![1u32][0]));
    } else {
        assert forall|j: int| 0 <= j < targets.len() implies bit_of(
            index,
            (#[trigger] targets[j]) as u64,
        ) == seq![1u32][j] by {}
        assert(!(bit_of(index, targets[0] as u64) == seq![0u32][0]));
    }
}

/// Whether the keys never fall from one entry to the next.
pub open spec fn ascending(keys: Seq<u64>) -> bool {
    forall|i: int, j: int| 0 <= i <= j < keys.len() ==> keys[i] <= keys[j]
}

/// Whether `index` is the first place of `keys` whose key is not below
/// `draw`, or the length of `keys` where every key is below it.
pub open spec fn first_not_below(keys: Seq<u64>, draw: u64, index: int) -> bool {
    &&& 0 <= index <= keys.len()
    &&& forall|i: int| 0 <= i < index ==> keys[i] < draw
    &&& forall|i: int| index <= i < keys.len() ==> keys[i] >= draw
}

/// At most one place is the first whose key is not below the draw.
pub proof fn lemma_first_not_below_unique(keys: Seq<u64>, draw: u64, first: int, second: int)
    requires
        first_not_below(keys, draw, first),
        first_not_below(keys, draw, second),
    ensures
        first == second,
{
    if first < second {
        assert(keys[first] < draw);
    }
    if second < first {
        assert(keys[second] < draw);
    }
}

/// A distribution that steps from `low` to `high` at `index`, as that of
/// the computational basis state `index` does, sends every draw above `low`
/// and not above `high` to `index`.
pub proof fn lemma_step_distribution_samples_its_step(
    keys: Seq<u64>,
    index: int,
    low: u64,
    high: u64,
    draw: u64,
    sampled: int,
)
    requires
        0 <= index < keys.len(),
        forall|k: int| 0 <= k < index ==> keys[k] == low,
        forall|k: int| index <= k < keys.len() ==> keys[k] == high,
        low < draw <= high,
        first_not_below(keys, draw, sampled),
    ensures
        ascending(keys),
        sampled == index,
{
    assert(first_not_below(keys, draw, index));
    lemma_first_not_below_unique(keys, draw, sampled, index);
}

/// `superslice::Ext::lower_bound` on a slice of integers. For a slice in
/// ascending order its binary search returns the first place whose element
/// is not less than `draw`, or the length where there is none.
#[verifier::external_body]
fn lower_bound(keys: &[u64], draw: u64) -> (index: usize)
    requires
        ascending(keys@),
    ensures
        first_not_below(keys@, draw, index as int),
{
    superslice::Ext::lower_bound(keys, &draw)
}

/// The basis state that a draw selects from a cumulative distribution: the
/// smallest index whose cumulative key is not below the draw. Keys and draw
/// are integers in the order of the probabilities they stand for. Where the
/// draw lies above every key the result is the number of keys.
pub fn sample_index(cumulative: &[u64], draw: u64) -> (index: u64)
    requires
        ascending(cumulative@),
    ensures
        first_not_below(cumulative@, draw, index as int),
{
    lower_bound(cumulative, draw) as u64
}

/// Sampling measurement results: one basis state for each draw, each the
/// smallest index whose cumulative key is not below its draw.
pub fn sampling(cumulative: &[u64], draws: &[u64]) -> (indices: Vec<u64>)
    requires
        ascending(cumulative@),
    ensures
        indices@.len() == draws@.len(),
        forall|k: int|
            0 <= k < draws@.len() ==> first_not_below(cumulative@, draws@[k], #[trigger] indices@[k] as int),
{
    let mut indices: Vec<u64> = Vec::new();
    let mut k: usize = 0;
    while k < draws.len()
        invariant
            k <= draws.len(),
            ascending(cumulative@),
            indices@.len() == k,
            forall|i: int|
                0 <= i < k ==> first_not_below(cumulative@, draws@[i], #[trigger] indices@[i] as int),
        decreases draws.len() - k,
    {
        indices.push(sample_index(cumulative, draws[k]));
        k += 1;
    }
    indices
}

/// Whether the keys never fall from one entry to the next.
pub fn is_ascending(keys: &[u64]) -> (ok: bool)
    ensures
        ok == ascending(keys@),
{
    if keys.len() == 0 {
        return true;
    }
    let mut k: usize = 1;
    while k < keys.len()
        invariant
            1 <= k <= keys.len(),
            forall|i: int, j: int| 0 <= i <= j < k ==> keys[i] <= keys[j],
        decreases keys.len() - k,
    {
        if keys[k - 1] > keys[k] {
            return false;
        }
        k += 1;
    }
    true
}

/// `rand::random` for a 32-bit integer: a value drawn from the thread's
/// generator. Nothing is known of the value.
#[verifier::external_body]
fn random_seed() -> (seed: u32) {
    rand::random()
}

/// The seed for a Haar-random state: the one given, or a fresh random one
/// where none is given.
pub fn haar_seed(given: Option<u32>) -> (seed: u32)
    ensures
        given matches Some(value) ==> seed == value,
{
    match given {
        Some(value) => value,
        None => random_seed(),
    }
}

} // verus!
