//! Gate descriptors and their marshalling into the argument lists that the
//! numerical kernels take.
//!
//! A kernel is named, not called, here: the call that [`wrap`] prepares is
//! carried out by whoever holds the kernels and the amplitude buffer.
use vstd::prelude::*;
use crate::state::Amplitude;

verus! {

/// The value a control qubit must have for a controlled operation to act.
#[derive(Clone, Copy, Debug, PartialEq, Eq, Structural)]
pub enum ControlValue {
    /// The control qubit must be 0.
    Zero,
    /// The control qubit must be 1.
    One,
}

impl ControlValue {
    /// The number, 0 or 1, that a kernel takes for this value.
    pub open spec fn spec_number(self) -> u32 {
        match self {
            ControlValue::Zero => 0,
            ControlValue::One => 1,
        }
    }

    /// The number, 0 or 1, that a kernel takes for this value.
    pub fn number(self) -> (number: u32)
        ensures
            number == self.spec_number(),
    {
        match self {
            ControlValue::Zero => 0,
            ControlValue::One => 1,
        }
    }
}

/// The kernels that update one target qubit.
#[derive(Clone, Copy, Debug, PartialEq, Eq, Structural)]
pub enum SingleKernel {
    X,
    Y,
    Z,
    H,
    S,
    Sdag,
    T,
    Tdag,
    SqrtX,
    SqrtXdag,
    SqrtY,
    SqrtYdag,
    ProjectZero,
    ProjectOne,
}

/// The kernels that take two qubit indices.
#[derive(Clone, Copy, Debug, PartialEq, Eq, Structural)]
pub enum ControlledKernel {
    CZ,
    CNOT,
    SWAP,
}

/// The kernels that rotate one target qubit about a Pauli axis.
#[derive(Clone, Copy, Debug, PartialEq, Eq, Structural)]
pub enum RotationKernel {
    RX,
    RY,
    RZ,
}

/// The kernels that apply a dense 2x2 matrix to one target qubit under any
/// number of controls.
#[derive(Clone, Copy, Debug, PartialEq, Eq, Structural)]
pub enum DenseKernel {
    MultiQubitControlSingleQubitDenseMatrix,
}

/// A gate to apply: one of the four shapes of kernel call.
#[allow(inconsistent_fields)]
#[derive(Debug, PartialEq, Eq)]
pub enum Gate {
    Single { target_qubit_index: u32, gate: SingleKernel },
    Controlled { control_qubit_index: u32, target_qubit_index: u32, gate: ControlledKernel },
    MultiControlledSingleTarget {
        /// (control_index, control_value)
        controls: Vec<(u32, ControlValue)>,
        target_index: u32,
        /// The 2x2 matrix, row by row.
        matrix: [Amplitude; 4],
        gate: DenseKernel,
    },
    Rotation {
        target_qubit_index: u32,
        /// `angle` of the rotation (radian), as the bit pattern of a
        /// binary64 number, in the sign that the kernel takes.
        angle: u64,
        gate: RotationKernel,
    },
}

/// A kernel call, marshalled: the kernel and, in the kernel's order, the
/// arguments that stand before the amplitude buffer, and the dimension that
/// follows it.
#[allow(inconsistent_fields)]
#[derive(Debug, PartialEq, Eq)]
pub enum KernelCall {
    Single { gate: SingleKernel, target: u32, dim: u64 },
    Controlled { gate: ControlledKernel, control: u32, target: u32, dim: u64 },
    MultiControlledSingleTarget {
        gate: DenseKernel,
        control_index_list: Vec<u32>,
        control_value_list: Vec<u32>,
        control_count: u32,
        target: u32,
        matrix: [Amplitude; 4],
        dim: u64,
    },
    Rotation { gate: RotationKernel, target: u32, angle: u64, dim: u64 },
}

/// Whether the two lists are the controls split into their qubit indices
/// and their required values as numbers.
pub open spec fn splits_controls(
    controls: Seq<(u32, ControlValue)>,
    indices: Seq<u32>,
    values: Seq<u32>,
) -> bool {
    &&& indices.len() == controls.len()
    &&& values.len() == controls.len()
    &&& forall|i: int| 0 <= i < controls.len() ==> #[trigger] indices[i] == controls[i].0
    &&& forall|i: int|
        0 <= i < controls.len() ==> #[trigger] values[i] == controls[i].1.spec_number()
}

/// Whether `call` is the kernel call of `gate` on a buffer of `dim`
/// amplitudes: same kernel, same operands in the kernel's order, the
/// controls split into an index list and a value list with their count.
pub open spec fn marshals(gate: Gate, dim: u64, call: KernelCall) -> bool {
    match gate {
        Gate::Single { target_qubit_index, gate } => call == (KernelCall::Single {
            gate,
            target: target_qubit_index,
            dim,
        }),
        Gate::Controlled { control_qubit_index, target_qubit_index, gate } => call
            == (KernelCall::Controlled {
            gate,
            control: control_qubit_index,
            target: target_qubit_index,
            dim,
        }),
        Gate::Rotation { target_qubit_index, angle, gate } => call == (KernelCall::Rotation {
            gate,
            target: target_qubit_index,
            angle,
            dim,
        }),
        Gate::MultiControlledSingleTarget { controls, target_index, matrix, gate } => {
            &&& call matches KernelCall::MultiControlledSingleTarget {
                gate: kernel,
                control_index_list,
                control_value_list,
                control_count,
                target,
                matrix: entries,
                dim: length,
            }
            &&& kernel == gate
            &&& splits_controls(controls@, control_index_list@, control_value_list@)
            &&& control_count == controls@.len()
            &&& target == target_index
            &&& entries@ == matrix@
            &&& length == dim
        },
    }
}

/// Whether every qubit that `gate` names lies in a state of `qubit_count`
/// qubits, the controls are distinct, and no control is the target.
pub open spec fn gate_fits(gate: Gate, qubit_count: nat) -> bool {
    match gate {
        Gate::Single { target_qubit_index, .. } => target_qubit_index < qubit_count,
        Gate::Rotation { target_qubit_index, .. } => target_qubit_index < qubit_count,
        Gate::Controlled { control_qubit_index, target_qubit_index, .. } => {
            &&& control_qubit_index < qubit_count
            &&& target_qubit_index < qubit_count
            &&& control_qubit_index != target_qubit_index
        },
        Gate::MultiControlledSingleTarget { controls, target_index, .. } => {
            &&& target_index < qubit_count
            &&& forall|i: int|
                0 <= i < controls@.len() ==> (#[trigger] controls@[i]).0 < qubit_count
                    && controls@[i].0 != target_index
            &&& forall|i: int, j: int|
                0 <= i < j < controls@.len() ==> (#[trigger] controls@[i]).0
                    != (#[trigger] controls@[j]).0
        },
    }
}

/// Whether the controls are distinct qubits of a state of `qubit_count`
/// qubits, none of them the target.
pub fn controls_fit(controls: &Vec<(u32, ControlValue)>, target_index: u32, qubit_count: usize) -> (ok:
    bool)
    ensures
        ok == ((forall|i: int|
            0 <= i < controls@.len() ==> (#[trigger] controls@[i]).0 < qubit_count && controls@[i].0
                != target_index) && (forall|i: int, j: int|
            0 <= i < j < controls@.len() ==> (#[trigger] controls@[i]).0
                != (#[trigger] controls@[j]).0)),
{
    let mut j: usize = 0;
    while j < controls.len()
        invariant
            j <= controls.len(),
            forall|i: int|
                0 <= i < j ==> (#[trigger] controls@[i]).0 < qubit_count && controls@[i].0
                    != target_index,
            forall|a: int, b: int|
                0 <= a < b < j ==> (#[trigger] controls@[a]).0 != (#[trigger] controls@[b]).0,
        decreases controls.len() - j,
    {
        let index: u32 = controls[j].0;
        if index as u64 >= qubit_count as u64 || index == target_index {
            assert(!(controls@[j as int].0 < qubit_count && controls@[j as int].0
                != target_index));
            return false;
        }
        let mut i: usize = 0;
        while i < j
            invariant
                i <= j < controls.len(),
                index == controls@[j as int].0,
                forall|a: int| 0 <= a < i ==> (#[trigger] controls@[a]).0 != index,
            decreases j - i,
        {
            if controls[i].0 == index {
                assert(!(controls@[i as int].0 != controls@[j as int].0));
                return false;
            }
            i += 1;
        }
        j += 1;
    }
    true
}

/// Custom constructors.
impl Gate {
    pub fn single_of(target_qubit_index: u32, gate: SingleKernel) -> (descriptor: Gate)
        ensures
            descriptor == (Gate::Single { target_qubit_index, gate }),
    {
        Gate::Single { target_qubit_index, gate }
    }

    pub fn rotation_of(target_qubit_index: u32, angle: u64, gate: RotationKernel) -> (descriptor:
        Gate)
        ensures
            descriptor == (Gate::Rotation { target_qubit_index, angle, gate }),
    {
        Gate::Rotation { target_qubit_index, angle, gate }
    }

    /// Whether every qubit named here lies in a state of
    /// `qubit_count` qubits, the controls are distinct, and no control is
    /// the target.
    pub fn fits(&self, qubit_count: usize) -> (ok: bool)
        ensures
            ok == gate_fits(*self, qubit_count as nat),
    {
        match self {
            Gate::Single { target_qubit_index, .. } => (*target_qubit_index as u64)
                < qubit_count as u64,
            Gate::Rotation { target_qubit_index, .. } => (*target_qubit_index as u64)
                < qubit_count as u64,
            Gate::Controlled { control_qubit_index, target_qubit_index, .. } => {
                (*control_qubit_index as u64) < qubit_count as u64 && (*target_qubit_index as u64)
                    < qubit_count as u64 && *control_qubit_index != *target_qubit_index
            },
            Gate::MultiControlledSingleTarget { controls, target_index, .. } => {
                (*target_index as u64) < qubit_count as u64 && controls_fit(
                    controls,
                    *target_index,
                    qubit_count,
                )
            },
        }
    }
}

/// Marshals `gate` for a buffer of `dim` amplitudes: picks the kernel's
/// call shape, puts the operands in the kernel's order and, for controls,
/// splits the pairs into the list of indices and the list of values.
pub fn wrap(dim: usize, gate: Gate) -> (call: KernelCall)
    requires
        gate matches Gate::MultiControlledSingleTarget { controls, .. } ==> controls@.len()
            <= u32::MAX,
    ensures
        marshals(gate, dim as u64, call),
{
    let dim: u64 = dim as u64;
    match gate {
        Gate::Single { target_qubit_index, gate } => KernelCall::Single {
            gate,
            target: target_qubit_index,
            dim,
        },
        Gate::Controlled { control_qubit_index, target_qubit_index, gate } => {
            KernelCall::Controlled {
                gate,
                control: control_qubit_index,
                target: target_qubit_index,
                dim,
            }
        },
        Gate::MultiControlledSingleTarget { controls, target_index, matrix, gate } => {
            let control_qubit_count: u32 = controls.len() as u32;
            let mut control_qubit_index_list: Vec<u32> = Vec::new();
            let mut control_value_list: Vec<u32> = Vec::new();
            let mut i: usize = 0;
            while i < controls.len()
                invariant
                    i <= controls.len(),
                    control_qubit_index_list@.len() == i,
                    control_value_list@.len() == i,
                    forall|k: int|
                        0 <= k < i ==> #[trigger] control_qubit_index_list@[k] == controls@[k].0,
                    forall|k: int|
                        0 <= k < i ==> #[trigger] control_value_list@[k]
                            == controls@[k].1.spec_number(),
                decreases controls.len() - i,
            {
                control_qubit_index_list.push(controls[i].0);
                control_value_list.push(controls[i].1.number());
                i += 1;
            }
            KernelCall::MultiControlledSingleTarget {
                gate,
                control_index_list: control_qubit_index_list,
                control_value_list,
                control_count: control_qubit_count,
                target: target_index,
                matrix,
                dim,
            }
        },
        Gate::Rotation { target_qubit_index, angle, gate } => KernelCall::Rotation {
            gate,
            target: target_qubit_index,
            angle,
            dim,
        },
    }
}

} // verus!
