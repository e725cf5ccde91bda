//! Quantum state vectors: bit-level basis-index arithmetic, state buffers
//! whose length is tied to their qubit count, gate descriptors and their
//! marshalling, and the structural operations on states.
//!
//! Amplitudes are carried as bit patterns and never computed with: the
//! numerical kernels that update or sum them live outside this library,
//! which prepares and checks everything handed to them.
use vstd::prelude::*;
use vstd::arithmetic::power2::lemma_pow2_adds;
use vstd::arithmetic::power2::lemma_pow2_pos;
use crate::bits::check_fixed_bits;
use crate::bits::check_order;
use crate::bits::insert_bits;
use crate::bits::lemma_permuted_identity;
use crate::bits::permute_index;
use crate::bits::spec_insert_bits;
use crate::bits::spec_permute_index;
use crate::bits::valid_fixed_bits;
use crate::bits::valid_order;
use crate::bits::MAX_QUBITS;
use crate::state::dimension;
use crate::state::lemma_dimension_shift;
use crate::state::spec_dimension;
use crate::state::well_formed;
use crate::state::StateErr;
use crate::state::StateRef;
pub mod binding;
pub mod bits;
pub mod gate;
pub mod measure;
pub mod prelude;
pub mod state;

pub use crate::state::Amplitude;
pub use crate::state::StateVec;

verus! {

/// The common length of the two buffers of an inner product, which is the
/// dimension handed to the kernel that sums `conj(bra[i]) * ket[i]`; buffers
/// of two lengths are refused.
pub fn inner_product(state_bra: &[Amplitude], state_ket: &[Amplitude]) -> (result: Result<
    usize,
    StateErr,
>)
    ensures
        state_bra.len() == state_ket.len() ==> result == Ok::<usize, StateErr>(state_bra.len()),
        state_bra.len() != state_ket.len() ==> result == Err::<usize, StateErr>(
            StateErr::InconsistentStateLength(state_bra.len(), state_ket.len()),
        ),
{
    if state_bra.len() != state_ket.len() {
        return Err(StateErr::InconsistentStateLength(state_bra.len(), state_ket.len()));
    }
    Ok(state_bra.len())
}

/// The place of the pair `(left_index, right_index)` in a tensor product
/// whose right factor has `right_qubits` qubits.
pub open spec fn spec_tensor_index(left_index: nat, right_index: nat, right_qubits: nat) -> nat {
    left_index * spec_dimension(right_qubits) + right_index
}

/// The pairs of basis states of the two factors fill the basis of the
/// product exactly: each pair has its own place below the joint dimension.
pub proof fn lemma_tensor_index_range(
    left_index: nat,
    right_index: nat,
    left_qubits: nat,
    right_qubits: nat,
)
    requires
        left_index < spec_dimension(left_qubits),
        right_index < spec_dimension(right_qubits),
    ensures
        spec_tensor_index(left_index, right_index, right_qubits) < spec_dimension(
            left_qubits + right_qubits,
        ),
        spec_tensor_index(left_index, right_index, right_qubits) / spec_dimension(right_qubits)
            == left_index,
        spec_tensor_index(left_index, right_index, right_qubits) % spec_dimension(right_qubits)
            == right_index,
{
    let dl = spec_dimension(left_qubits) as int;
    let dr = spec_dimension(right_qubits) as int;
    let i = left_index as int;
    let j = right_index as int;
    lemma_pow2_adds(left_qubits, right_qubits);
    lemma_pow2_pos(right_qubits);
    assert(i * dr + j < dl * dr) by (nonlinear_arith)
        requires
            0 <= i < dl,
            0 <= j < dr,
    ;
    vstd::arithmetic::div_mod::lemma_fundamental_div_mod_converse(i * dr + j, dr, i, j);
}

/// The place in a tensor product of the pair of basis states `left_index`
/// of the left factor and `right_index` of the right one.
pub fn tensor_index(left_index: u64, right_index: u64, left_qubits: usize, right_qubits: usize) -> (index:
    u64)
    requires
        left_qubits + right_qubits <= MAX_QUBITS,
        left_index < spec_dimension(left_qubits as nat),
        right_index < spec_dimension(right_qubits as nat),
    ensures
        index == spec_tensor_index(left_index as nat, right_index as nat, right_qubits as nat),
        index < spec_dimension((left_qubits + right_qubits) as nat),
{
    let right_dim: u64 = dimension(right_qubits);
    proof {
        lemma_tensor_index_range(
            left_index as nat,
            right_index as nat,
            left_qubits as nat,
            right_qubits as nat,
        );
        lemma_dimension_shift((left_qubits + right_qubits) as nat);
        assert(left_index * right_dim <= left_index * right_dim + right_index);
    }
    left_index * right_dim + right_index
}

/// The state that a tensor product is written into: a fresh state on the
/// qubits of both factors, with one amplitude for each pair of their basis
/// states. Joint counts beyond the largest supported one give `None`.
pub fn tensor_product<L: StateRef, R: StateRef>(state_left: &L, state_right: &R) -> (result:
    Option<StateVec>)
    requires
        well_formed(state_left),
        well_formed(state_right),
    ensures
        result.is_some() <==> state_left.qubits() + state_right.qubits() <= MAX_QUBITS,
        result matches Some(frame) ==> {
            &&& frame.wf()
            &&& frame.spec_qubits() == state_left.qubits() + state_right.qubits()
            &&& frame@.len() == state_left.amplitudes().len() * state_right.amplitudes().len()
            &&& frame@ == crate::state::basis_state(frame.spec_qubits(), 0)
        },
{
    let left = state_left.qubit_count();
    let right = state_right.qubit_count();
    if left + right > MAX_QUBITS {
        return None;
    }
    proof {
        lemma_pow2_adds(left as nat, right as nat);
    }
    Some(StateVec::new(left + right))
}

/// `amplitude` is the entry of `source` at the place `at`, which lies within
/// `source`.
pub open spec fn taken_from(amplitude: Amplitude, source: Seq<Amplitude>, at: u64) -> bool {
    at < source.len() && amplitude == source[at as int]
}

/// Permutate qubits from state: the qubit at position `qubit_order[k]` of
/// `state` becomes qubit `k` of the result, which is a new state; `state`
/// stays as it is. An order that does not name each qubit exactly once is
/// refused.
pub fn permutate_qubit<T: StateRef>(state: &T, qubit_order: &[u32]) -> (result: Result<
    StateVec,
    StateErr,
>)
    requires
        well_formed(state),
    ensures
        qubit_order.len() != state.qubits() ==> result.is_err(),
        result.is_err() <==> !valid_order(state.qubits(), qubit_order@),
        result matches Err(error) ==> (error matches StateErr::InvalidTargetList(list) && list@
            == qubit_order@),
        result matches Ok(permuted) ==> {
            &&& permuted.wf()
            &&& permuted.spec_qubits() == state.qubits()
            &&& forall|i: int|
                0 <= i < permuted@.len() ==> taken_from(
                    #[trigger] permuted@[i],
                    state.amplitudes(),
                    spec_permute_index(i as u64, qubit_order@),
                )
            &&& (forall|k: int| 0 <= k < qubit_order.len() ==> #[trigger] qubit_order[k] == k)
                ==> permuted@ == state.amplitudes()
        },
{
    let qubit_count = state.qubit_count();
    if !check_order(qubit_count, qubit_order) {
        return Err(StateErr::InvalidTargetList(vstd::slice::slice_to_vec(qubit_order)));
    }
    let dim: u64 = dimension(qubit_count);
    let mut buffer: Vec<Amplitude> = Vec::new();
    let mut index: u64 = 0;
    while index < dim
        invariant
            index <= dim,
            dim == spec_dimension(qubit_count as nat),
            qubit_count == state.qubits(),
            qubit_count <= 63,
            well_formed(state),
            valid_order(qubit_count as nat, qubit_order@),
            buffer@.len() == index,
            forall|i: int|
                0 <= i < index ==> taken_from(
                    #[trigger] buffer@[i],
                    state.amplitudes(),
                    spec_permute_index(i as u64, qubit_order@),
                ),
        decreases dim - index,
    {
        let source: u64 = permute_index(index, qubit_order);
        proof {
            lemma_dimension_shift(qubit_count as nat);
        }
        buffer.push(state.amplitude(source));
        index += 1;
    }
    proof {
        if forall|k: int| 0 <= k < qubit_order.len() ==> #[trigger] qubit_order[k] == k {
            assert forall|i: int| 0 <= i < buffer@.len() implies buffer@[i]
                == state.amplitudes()[i] by {
                lemma_dimension_shift(qubit_count as nat);
                lemma_permuted_identity(i as u64, qubit_order@, qubit_count as nat);
            }
            assert(buffer@ =~= state.amplitudes());
        }
    }
    let permuted = StateVec::from_amplitudes(qubit_count, buffer);
    Ok(permuted.unwrap())
}

/// Drop qubits from state: projects qubit `target[j]` to the value
/// `projection[j]`, for every `j`, and removes these qubits. The result is
/// a new state on the remaining qubits, not renormalized: its amplitude `k`
/// is the amplitude of `state` at the basis state that carries the
/// projected values on the dropped qubits and the bits of `k` on the others.
/// At least one qubit must remain, and the pairs must fix distinct qubits of
/// the state to 0 or 1.
pub fn drop_qubit<T: StateRef>(state: &T, target: &[u32], projection: &[u32]) -> (result: Result<
    StateVec,
    StateErr,
>)
    requires
        well_formed(state),
    ensures
        (target.len() != projection.len() || state.qubits() <= target.len())
            ==> result.is_err(),
        result.is_err() <==> !(valid_fixed_bits(state.qubits(), target@, projection@)
            && target.len() < state.qubits()),
        result matches Err(error) ==> (error matches StateErr::InvalidTargetList(list) && list@
            == target@),
        result matches Ok(dropped) ==> {
            &&& dropped.wf()
            &&& dropped.spec_qubits() == state.qubits() - target.len()
            &&& forall|k: int|
                0 <= k < dropped@.len() ==> taken_from(
                    #[trigger] dropped@[k],
                    state.amplitudes(),
                    spec_insert_bits(k as u64, target@, projection@, state.qubits()),
                )
        },
{
    let qubit_count = state.qubit_count();
    if state.qubit_count() <= target.len() || !check_fixed_bits(qubit_count, target, projection) {
        return Err(StateErr::InvalidTargetList(vstd::slice::slice_to_vec(target)));
    }
    let remaining: usize = qubit_count - target.len();
    let dim: u64 = dimension(remaining);
    let mut buffer: Vec<Amplitude> = Vec::new();
    let mut k: u64 = 0;
    while k < dim
        invariant
            k <= dim,
            dim == spec_dimension(remaining as nat),
            qubit_count == state.qubits(),
            qubit_count <= 63,
            well_formed(state),
            valid_fixed_bits(qubit_count as nat, target@, projection@),
            buffer@.len() == k,
            forall|i: int|
                0 <= i < k ==> taken_from(
                    #[trigger] buffer@[i],
                    state.amplitudes(),
                    spec_insert_bits(i as u64, target@, projection@, state.qubits()),
                ),
        decreases dim - k,
    {
        let source: u64 = insert_bits(k, target, projection, qubit_count);
        proof {
            lemma_dimension_shift(qubit_count as nat);
        }
        buffer.push(state.amplitude(source));
        k += 1;
    }
    let dropped = StateVec::from_amplitudes(remaining, buffer);
    Ok(dropped.unwrap())
}

/// The operands of a kernel that takes a product of Pauli operators, in the
/// kernel's order: the target qubits, the operator on each of them, their
/// count, and the dimension of the buffer.
#[derive(Debug, PartialEq, Eq)]
pub struct PauliOperands {
    pub target_index_list: Vec<u32>,
    pub pauli_operator_type_list: Vec<u32>,
    pub target_count: u32,
    pub dim: u64,
}

/// Whether `operands` are the two lists with their common length, for a
/// buffer of `dim` amplitudes.
pub open spec fn marshals_pauli(
    targets: Seq<u32>,
    operators: Seq<u32>,
    dim: usize,
    operands: PauliOperands,
) -> bool {
    &&& operands.target_index_list@ == targets
    &&& operands.pauli_operator_type_list@ == operators
    &&& operands.target_count == targets.len()
    &&& operands.dim == dim
}

/// Whether the two lists name one operator for each target, and no more
/// targets than a kernel can count.
pub open spec fn valid_pauli_lists(targets: Seq<u32>, operators: Seq<u32>) -> bool {
    targets.len() == operators.len() && targets.len() <= u32::MAX
}

/// Marshals a product of Pauli operators; lists of two lengths are refused.
fn pauli_operands(
    target_qubit_index_list: &[u32],
    pauli_operator_type_list: &[u32],
    dim: usize,
) -> (result: Result<PauliOperands, StateErr>)
    ensures
        result.is_ok() <==> valid_pauli_lists(
            target_qubit_index_list@,
            pauli_operator_type_list@,
        ),
        result matches Err(error) ==> (error matches StateErr::InvalidTargetList(list) && list@
            == target_qubit_index_list@),
        result matches Ok(operands) ==> marshals_pauli(
            target_qubit_index_list@,
            pauli_operator_type_list@,
            dim,
            operands,
        ),
{
    if target_qubit_index_list.len() != pauli_operator_type_list.len()
        || target_qubit_index_list.len() as u64 > u32::MAX as u64 {
        return Err(
            StateErr::InvalidTargetList(vstd::slice::slice_to_vec(target_qubit_index_list)),
        );
    }
    Ok(
        PauliOperands {
            target_index_list: vstd::slice::slice_to_vec(target_qubit_index_list),
            pauli_operator_type_list: vstd::slice::slice_to_vec(pauli_operator_type_list),
            target_count: target_qubit_index_list.len() as u32,
            dim: dim as u64,
        },
    )
}

/// Get expectation value: the operands for the kernel that computes the
/// expectation value of a product of Pauli operators, one operator for each
/// target qubit, on a buffer of `dim` amplitudes. Lists of two lengths are
/// refused.
pub fn expectation_value_multi_qubit_pauli_operator_partial_list(
    target_qubit_index_list: &[u32],
    pauli_operator_type_list: &[u32],
    dim: usize,
) -> (result: Result<PauliOperands, StateErr>)
    ensures
        result.is_ok() <==> valid_pauli_lists(
            target_qubit_index_list@,
            pauli_operator_type_list@,
        ),
        result matches Err(error) ==> (error matches StateErr::InvalidTargetList(list) && list@
            == target_qubit_index_list@),
        result matches Ok(operands) ==> marshals_pauli(
            target_qubit_index_list@,
            pauli_operator_type_list@,
            dim,
            operands,
        ),
{
    pauli_operands(target_qubit_index_list, pauli_operator_type_list, dim)
}

/// The operands for the kernel that rotates about a product of Pauli
/// operators, and the angle it is handed: the negated `angle`, as for the
/// rotations about one axis. Lists of two lengths are refused.
pub fn multi_qubit_pauli_rotation_gate_partial_list(
    target_qubit_index_list: &[u32],
    pauli_operator_type_list: &[u32],
    angle: u64,
    dim: usize,
) -> (result: Result<(PauliOperands, u64), StateErr>)
    ensures
        result.is_ok() <==> valid_pauli_lists(
            target_qubit_index_list@,
            pauli_operator_type_list@,
        ),
        result matches Err(error) ==> (error matches StateErr::InvalidTargetList(list) && list@
            == target_qubit_index_list@),
        result matches Ok(call) ==> marshals_pauli(
            target_qubit_index_list@,
            pauli_operator_type_list@,
            dim,
            call.0,
        ) && call.1 == angle ^ crate::state::SIGN_BIT,
{
    match pauli_operands(target_qubit_index_list, pauli_operator_type_list, dim) {
        Ok(operands) => Ok((operands, angle ^ crate::state::SIGN_BIT)),
        Err(error) => Err(error),
    }
}

} // verus!
