//! The named gates. Each gives the marshalled kernel call that applies the
//! gate to a buffer of `dim` amplitudes.
//!
//! Rotation angles are bit patterns of binary64 numbers. The rotation
//! kernels apply `exp(-i(a/2)P)` for the angle `a` they are handed, and the
//! rotation gates hand them the negated angle: a rotation by the angle
//! `angle` is `exp(+i(angle/2)P)`.
use vstd::prelude::*;
use crate::binding::wrap;
use crate::binding::ControlValue;
use crate::binding::ControlledKernel;
use crate::binding::DenseKernel;
use crate::binding::Gate;
use crate::binding::KernelCall;
use crate::binding::RotationKernel;
use crate::binding::SingleKernel;
use crate::state::Amplitude;
use crate::state::SIGN_BIT;

verus! {

/// Apply the Pauli X gate to the quantum state.
/// * `target_qubit_index` index of the qubit
/// * `dim` length of the quantum state
pub fn x_gate(target_qubit_index: u32, dim: usize) -> (call: KernelCall)
    ensures
        call == (KernelCall::Single {
            gate: SingleKernel::X,
            target: target_qubit_index,
            dim: dim as u64,
        }),
{
    wrap(dim, Gate::single_of(target_qubit_index, SingleKernel::X))
}

/// Apply the Pauli Y gate to the quantum state.
/// * `target_qubit_index` index of the qubit
/// * `dim` length of the quantum state
pub fn y_gate(target_qubit_index: u32, dim: usize) -> (call: KernelCall)
    ensures
        call == (KernelCall::Single {
            gate: SingleKernel::Y,
            target: target_qubit_index,
            dim: dim as u64,
        }),
{
    wrap(dim, Gate::single_of(target_qubit_index, SingleKernel::Y))
}

/// Apply the Pauli Z gate to the quantum state.
/// * `target_qubit_index` index of the qubit
/// * `dim` length of the quantum state
pub fn z_gate(target_qubit_index: u32, dim: usize) -> (call: KernelCall)
    ensures
        call == (KernelCall::Single {
            gate: SingleKernel::Z,
            target: target_qubit_index,
            dim: dim as u64,
        }),
{
    wrap(dim, Gate::single_of(target_qubit_index, SingleKernel::Z))
}

/// Apply the Hadamard gate to the quantum state.
/// * `target_qubit_index` index of the qubit
/// * `dim` length of the quantum state
pub fn h_gate(target_qubit_index: u32, dim: usize) -> (call: KernelCall)
    ensures
        call == (KernelCall::Single {
            gate: SingleKernel::H,
            target: target_qubit_index,
            dim: dim as u64,
        }),
{
    wrap(dim, Gate::single_of(target_qubit_index, SingleKernel::H))
}

/// Project the quantum state to the 0 state.
/// * `target_qubit_index` index of the qubit
/// * `dim` length of the quantum state
pub fn p0_gate(target_qubit_index: u32, dim: usize) -> (call: KernelCall)
    ensures
        call == (KernelCall::Single {
            gate: SingleKernel::ProjectZero,
            target: target_qubit_index,
            dim: dim as u64,
        }),
{
    wrap(dim, Gate::single_of(target_qubit_index, SingleKernel::ProjectZero))
}

/// Project the quantum state to the 1 state.
/// * `target_qubit_index` index of the qubit
/// * `dim` length of the quantum state
pub fn p1_gate(target_qubit_index: u32, dim: usize) -> (call: KernelCall)
    ensures
        call == (KernelCall::Single {
            gate: SingleKernel::ProjectOne,
            target: target_qubit_index,
            dim: dim as u64,
        }),
{
    wrap(dim, Gate::single_of(target_qubit_index, SingleKernel::ProjectOne))
}

/// Apply S gate to the quantum state.
/// * `target_qubit_index` index of the qubit
/// * `dim` length of the quantum state
pub fn s_gate(target_qubit_index: u32, dim: usize) -> (call: KernelCall)
    ensures
        call == (KernelCall::Single {
            gate: SingleKernel::S,
            target: target_qubit_index,
            dim: dim as u64,
        }),
{
    wrap(dim, Gate::single_of(target_qubit_index, SingleKernel::S))
}

/// Apply S^dag gate to the quantum state.
/// * `target_qubit_index` index of the qubit
/// * `dim` length of the quantum state
pub fn sdag_gate(target_qubit_index: u32, dim: usize) -> (call: KernelCall)
    ensures
        call == (KernelCall::Single {
            gate: SingleKernel::Sdag,
            target: target_qubit_index,
            dim: dim as u64,
        }),
{
    wrap(dim, Gate::single_of(target_qubit_index, SingleKernel::Sdag))
}

/// Apply T gate to the quantum state.
/// * `target_qubit_index` index of the qubit
/// * `dim` length of the quantum state
pub fn t_gate(target_qubit_index: u32, dim: usize) -> (call: KernelCall)
    ensures
        call == (KernelCall::Single {
            gate: SingleKernel::T,
            target: target_qubit_index,
            dim: dim as u64,
        }),
{
    wrap(dim, Gate::single_of(target_qubit_index, SingleKernel::T))
}

/// Apply T^dag gate to the quantum state.
/// * `target_qubit_index` index of the qubit
/// * `dim` length of the quantum state
pub fn tdag_gate(target_qubit_index: u32, dim: usize) -> (call: KernelCall)
    ensures
        call == (KernelCall::Single {
            gate: SingleKernel::Tdag,
            target: target_qubit_index,
            dim: dim as u64,
        }),
{
    wrap(dim, Gate::single_of(target_qubit_index, SingleKernel::Tdag))
}

/// Apply the square root of the X gate to the quantum state.
/// * `target_qubit_index` index of the qubit
/// * `dim` length of the quantum state
pub fn sqrtx_gate(target_qubit_index: u32, dim: usize) -> (call: KernelCall)
    ensures
        call == (KernelCall::Single {
            gate: SingleKernel::SqrtX,
            target: target_qubit_index,
            dim: dim as u64,
        }),
{
    wrap(dim, Gate::single_of(target_qubit_index, SingleKernel::SqrtX))
}

/// Apply hermitian conjugate of the square root of the X gate to the quantum
/// state.
/// * `target_qubit_index` index of the qubit
/// * `dim` length of the quantum state
pub fn sqrtxdag_gate(target_qubit_index: u32, dim: usize) -> (call: KernelCall)
    ensures
        call == (KernelCall::Single {
            gate: SingleKernel::SqrtXdag,
            target: target_qubit_index,
            dim: dim as u64,
        }),
{
    wrap(dim, Gate::single_of(target_qubit_index, SingleKernel::SqrtXdag))
}

/// Apply the square root of the Y gate to the quantum state.
/// * `target_qubit_index` index of the qubit
/// * `dim` length of the quantum state
pub fn sqrty_gate(target_qubit_index: u32, dim: usize) -> (call: KernelCall)
    ensures
        call == (KernelCall::Single {
            gate: SingleKernel::SqrtY,
            target: target_qubit_index,
            dim: dim as u64,
        }),
{
    wrap(dim, Gate::single_of(target_qubit_index, SingleKernel::SqrtY))
}

/// Apply hermitian conjugate of the square root of the Y gate to the quantum
/// state.
/// * `target_qubit_index` index of the qubit
/// * `dim` length of the quantum state
pub fn sqrtydag_gate(target_qubit_index: u32, dim: usize) -> (call: KernelCall)
    ensures
        call == (KernelCall::Single {
            gate: SingleKernel::SqrtYdag,
            target: target_qubit_index,
            dim: dim as u64,
        }),
{
    wrap(dim, Gate::single_of(target_qubit_index, SingleKernel::SqrtYdag))
}

/// Apply the CZ gate to the quantum state.
/// * `control_qubit_index` index of control qubit
/// * `target_qubit_index` index of the qubit
/// * `dim` length of the quantum state
pub fn cz_gate(control_qubit_index: u32, target_qubit_index: u32, dim: usize) -> (call: KernelCall)
    ensures
        call == (KernelCall::Controlled {
            gate: ControlledKernel::CZ,
            control: control_qubit_index,
            target: target_qubit_index,
            dim: dim as u64,
        }),
{
    wrap(
        dim,
        Gate::Controlled {
            control_qubit_index: control_qubit_index,
            target_qubit_index: target_qubit_index,
            gate: ControlledKernel::CZ,
        },
    )
}

/// Apply the CNOT gate to the quantum state.
/// * `control_qubit_index` index of control qubit
/// * `target_qubit_index` index of the qubit
/// * `dim` length of the quantum state
pub fn cnot_gate(control_qubit_index: u32, target_qubit_index: u32, dim: usize) -> (call: KernelCall)
    ensures
        call == (KernelCall::Controlled {
            gate: ControlledKernel::CNOT,
            control: control_qubit_index,
            target: target_qubit_index,
            dim: dim as u64,
        }),
{
    wrap(
        dim,
        Gate::Controlled {
            control_qubit_index: control_qubit_index,
            target_qubit_index: target_qubit_index,
            gate: ControlledKernel::CNOT,
        },
    )
}

/// Apply the SWAP to the quantum state.
/// * `target_qubit_index_0` index of the first target qubit
/// * `target_qubit_index_1` index of the second target qubit
/// * `dim` length of the quantum state
pub fn swap_gate(target_qubit_index_0: u32, target_qubit_index_1: u32, dim: usize) -> (call: KernelCall)
    ensures
        call == (KernelCall::Controlled {
            gate: ControlledKernel::SWAP,
            control: target_qubit_index_0,
            target: target_qubit_index_1,
            dim: dim as u64,
        }),
{
    wrap(
        dim,
        Gate::Controlled {
            control_qubit_index: target_qubit_index_0,
            target_qubit_index: target_qubit_index_1,
            gate: ControlledKernel::SWAP,
        },
    )
}

/// The matrix of the Pauli X gate, `[[0, 1], [1, 0]]`, row by row.
pub open spec fn spec_not_matrix() -> Seq<Amplitude> {
    seq![
        Amplitude::spec_zero(),
        Amplitude::spec_one(),
        Amplitude::spec_one(),
        Amplitude::spec_zero(),
    ]
}

/// The matrix of the Pauli Z gate, `[[1, 0], [0, -1]]`, row by row.
pub open spec fn spec_phase_flip_matrix() -> Seq<Amplitude> {
    seq![
        Amplitude::spec_one(),
        Amplitude::spec_zero(),
        Amplitude::spec_zero(),
        Amplitude::spec_one().spec_negated(),
    ]
}

/// Whether `call` applies the matrix `matrix` to `target` under the
/// controls `controls`, each of which must be 1.
pub open spec fn is_controlled_matrix_call(
    call: KernelCall,
    controls: Seq<u32>,
    target: u32,
    matrix: Seq<Amplitude>,
    dim: u64,
) -> bool {
    &&& call matches KernelCall::MultiControlledSingleTarget {
        gate,
        control_index_list,
        control_value_list,
        control_count,
        target: call_target,
        matrix: entries,
        dim: length,
    }
    &&& gate == DenseKernel::MultiQubitControlSingleQubitDenseMatrix
    &&& control_index_list@ == controls
    &&& control_value_list@ == Seq::new(controls.len(), |i: int| 1u32)
    &&& control_count == controls.len()
    &&& call_target == target
    &&& entries@ == matrix
    &&& length == dim
}

/// Apply the CCNOT(a.k.a Toffoli) gate to the quantum state: the X gate on
/// the target where both controls are 1.
pub fn ccnot_gate(
    control_qubit_index1: u32,
    control_qubit_index2: u32,
    target_qubit_index: u32,
    dim: usize,
) -> (call: KernelCall)
    ensures
        is_controlled_matrix_call(
            call,
            seq![control_qubit_index1, control_qubit_index2],
            target_qubit_index,
            spec_not_matrix(),
            dim as u64,
        ),
{
    let controls: [u32; 2] = [control_qubit_index1, control_qubit_index2];
    let matrix: [Amplitude; 4] = [
        Amplitude::zero(),
        Amplitude::one(),
        Amplitude::one(),
        Amplitude::zero(),
    ];
    assert(controls@ =~= seq![control_qubit_index1, control_qubit_index2]);
    assert(matrix@ =~= spec_not_matrix());
    multi_control_u_gate(controls.as_slice(), target_qubit_index, matrix, dim)
}

/// Apply the CCZ gate to the quantum state: the Z gate on the target where
/// both controls are 1.
pub fn ccz_gate(
    control_qubit_index1: u32,
    control_qubit_index2: u32,
    target_qubit_index: u32,
    dim: usize,
) -> (call: KernelCall)
    ensures
        is_controlled_matrix_call(
            call,
            seq![control_qubit_index1, control_qubit_index2],
            target_qubit_index,
            spec_phase_flip_matrix(),
            dim as u64,
        ),
{
    let controls: [u32; 2] = [control_qubit_index1, control_qubit_index2];
    let matrix: [Amplitude; 4] = [
        Amplitude::one(),
        Amplitude::zero(),
        Amplitude::zero(),
        Amplitude::one().negated(),
    ];
    assert(controls@ =~= seq![control_qubit_index1, control_qubit_index2]);
    assert(matrix@ =~= spec_phase_flip_matrix());
    multi_control_u_gate(controls.as_slice(), target_qubit_index, matrix, dim)
}

/// Apply arbitrary multi-controlled gate represented as `matrix`.
/// * `control_qubit_indexes` if these qubits are `ControlValue::One` then apply
///   `matrix`
/// * `target_qubit_index` the target applied `matrix`
/// * `dim` length of the quantum state
pub fn multi_control_u_gate(
    control_qubit_indexes: &[u32],
    target_qubit_index: u32,
    matrix: [Amplitude; 4],
    dim: usize,
) -> (call: KernelCall)
    requires
        control_qubit_indexes.len() <= u32::MAX,
    ensures
        is_controlled_matrix_call(
            call,
            control_qubit_indexes@,
            target_qubit_index,
            matrix@,
            dim as u64,
        ),
{
    let mut controls: Vec<(u32, ControlValue)> = Vec::new();
    let mut i: usize = 0;
    while i < control_qubit_indexes.len()
        invariant
            i <= control_qubit_indexes.len(),
            controls@.len() == i,
            forall|k: int|
                0 <= k < i ==> #[trigger] controls@[k] == (
                    control_qubit_indexes[k],
                    ControlValue::One,
                ),
        decreases control_qubit_indexes.len() - i,
    {
        controls.push((control_qubit_indexes[i], ControlValue::One));
        i += 1;
    }
    let call = wrap(
        dim,
        Gate::MultiControlledSingleTarget {
            controls,
            target_index: target_qubit_index,
            matrix,
            gate: DenseKernel::MultiQubitControlSingleQubitDenseMatrix,
        },
    );
    proof {
        match &call {
            KernelCall::MultiControlledSingleTarget {
                control_index_list,
                control_value_list,
                ..
            } => {
                assert(control_index_list@ =~= control_qubit_indexes@);
                assert(control_value_list@ =~= Seq::new(
                    control_qubit_indexes@.len(),
                    |i: int| 1u32,
                ));
            },
            _ => {},
        }
    }
    call
}

/// Apply a X rotation gate by angle to the quantum state. The kernel is
/// handed the negated angle, so the rotation is exp(+i(angle/2)X).
/// * `target_qubit_index` index of the qubit
/// * `angle` angle of the rotation, as the bit pattern of a binary64 number
/// * `dim` length of the quantum state
pub fn rx_gate(target_qubit_index: u32, angle: u64, dim: usize) -> (call: KernelCall)
    ensures
        call == (KernelCall::Rotation {
            gate: RotationKernel::RX,
            target: target_qubit_index,
            angle: angle ^ SIGN_BIT,
            dim: dim as u64,
        }),
{
    wrap(dim, Gate::rotation_of(target_qubit_index, angle ^ SIGN_BIT, RotationKernel::RX))
}

/// Apply a Y rotation gate by angle to the quantum state. The kernel is
/// handed the negated angle, so the rotation is exp(+i(angle/2)Y).
/// * `target_qubit_index` index of the qubit
/// * `angle` angle of the rotation, as the bit pattern of a binary64 number
/// * `dim` length of the quantum state
pub fn ry_gate(target_qubit_index: u32, angle: u64, dim: usize) -> (call: KernelCall)
    ensures
        call == (KernelCall::Rotation {
            gate: RotationKernel::RY,
            target: target_qubit_index,
            angle: angle ^ SIGN_BIT,
            dim: dim as u64,
        }),
{
    wrap(dim, Gate::rotation_of(target_qubit_index, angle ^ SIGN_BIT, RotationKernel::RY))
}

/// Apply a Z rotation gate by angle to the quantum state. The kernel is
/// handed the negated angle, so the rotation is exp(+i(angle/2)Z).
/// * `target_qubit_index` index of the qubit
/// * `angle` angle of the rotation, as the bit pattern of a binary64 number
/// * `dim` length of the quantum state
pub fn rz_gate(target_qubit_index: u32, angle: u64, dim: usize) -> (call: KernelCall)
    ensures
        call == (KernelCall::Rotation {
            gate: RotationKernel::RZ,
            target: target_qubit_index,
            angle: angle ^ SIGN_BIT,
            dim: dim as u64,
        }),
{
    wrap(dim, Gate::rotation_of(target_qubit_index, angle ^ SIGN_BIT, RotationKernel::RZ))
}

} // verus!
