use qurs::binding::{
	wrap, ControlValue, ControlledKernel, DenseKernel, Gate, KernelCall, RotationKernel,
	SingleKernel,
};
use qurs::gate::{
	ccnot_gate, ccz_gate, cnot_gate, cz_gate, h_gate, multi_control_u_gate, p0_gate, p1_gate,
	rx_gate, rz_gate, s_gate, sdag_gate, sqrtx_gate, sqrtxdag_gate, sqrty_gate, sqrtydag_gate,
	swap_gate, t_gate, tdag_gate, y_gate, z_gate,
};
use qurs::measure::zero_probability_indices;
use qurs::state::{StateMut, ONE_BITS, SIGN_BIT, ZERO_BITS};
use qurs::Amplitude;

fn re_only(value: f64) -> Amplitude {
	Amplitude::new(value.to_bits(), 0f64.to_bits())
}

#[test]
fn test_ccnot_gate() {
	const N: usize = 3;
	let mut state = [re_only(0.); 2usize.pow(N as u32)];
	state.set_computational_basis(0b010);
	assert_eq!(state[0b010], re_only(1.));

	assert_eq!(
		h_gate(0, state.len()),
		KernelCall::Single { gate: SingleKernel::H, target: 0, dim: 8 }
	);
	assert_eq!(
		h_gate(1, state.len()),
		KernelCall::Single { gate: SingleKernel::H, target: 1, dim: 8 }
	);

	assert_eq!(
		ccnot_gate(0, 1, 2, state.len()),
		KernelCall::MultiControlledSingleTarget {
			gate: DenseKernel::MultiQubitControlSingleQubitDenseMatrix,
			control_index_list: vec![0, 1],
			control_value_list: vec![1, 1],
			control_count: 2,
			target: 2,
			matrix: [re_only(0.), re_only(1.), re_only(1.), re_only(0.)],
			dim: 8,
		}
	);

	(0..N).for_each(|i| {
		assert!(
			zero_probability_indices(&state, i).is_ok(),
			"{}th zero_probability is null!",
			i
		);
	});
}

#[test]
fn ccz_matrix_has_minus_one_in_the_corner() {
	let call = ccz_gate(3, 1, 0, 16);
	let minus_one = Amplitude::new((-1f64).to_bits(), (-0f64).to_bits());
	assert_eq!(
		call,
		KernelCall::MultiControlledSingleTarget {
			gate: DenseKernel::MultiQubitControlSingleQubitDenseMatrix,
			control_index_list: vec![3, 1],
			control_value_list: vec![1, 1],
			control_count: 2,
			target: 0,
			matrix: [re_only(1.), re_only(0.), re_only(0.), minus_one],
			dim: 16,
		}
	);
}

#[test]
fn x_then_z_on_one_qubit_are_two_single_calls() {
	let state = [re_only(1.), re_only(0.)];
	assert_eq!(
		qurs::gate::x_gate(0, state.len()),
		KernelCall::Single { gate: SingleKernel::X, target: 0, dim: 2 }
	);
	assert_eq!(
		z_gate(0, state.len()),
		KernelCall::Single { gate: SingleKernel::Z, target: 0, dim: 2 }
	);
}

#[test]
fn every_single_qubit_gate_names_its_kernel() {
	let expect = |gate: SingleKernel| KernelCall::Single { gate, target: 2, dim: 8 };
	assert_eq!(y_gate(2, 8), expect(SingleKernel::Y));
	assert_eq!(p0_gate(2, 8), expect(SingleKernel::ProjectZero));
	assert_eq!(p1_gate(2, 8), expect(SingleKernel::ProjectOne));
	assert_eq!(s_gate(2, 8), expect(SingleKernel::S));
	assert_eq!(sdag_gate(2, 8), expect(SingleKernel::Sdag));
	assert_eq!(t_gate(2, 8), expect(SingleKernel::T));
	assert_eq!(tdag_gate(2, 8), expect(SingleKernel::Tdag));
	assert_eq!(sqrtx_gate(2, 8), expect(SingleKernel::SqrtX));
	assert_eq!(sqrtxdag_gate(2, 8), expect(SingleKernel::SqrtXdag));
	assert_eq!(sqrty_gate(2, 8), expect(SingleKernel::SqrtY));
	assert_eq!(sqrtydag_gate(2, 8), expect(SingleKernel::SqrtYdag));
}

#[test]
fn two_qubit_gates_keep_the_order_of_their_indices() {
	assert_eq!(
		cz_gate(1, 0, 4),
		KernelCall::Controlled { gate: ControlledKernel::CZ, control: 1, target: 0, dim: 4 }
	);
	assert_eq!(
		cnot_gate(0, 1, 4),
		KernelCall::Controlled { gate: ControlledKernel::CNOT, control: 0, target: 1, dim: 4 }
	);
	assert_eq!(
		swap_gate(2, 0, 8),
		KernelCall::Controlled { gate: ControlledKernel::SWAP, control: 2, target: 0, dim: 8 }
	);
}

#[test]
fn rotation_gates_hand_over_the_negated_angle() {
	let angle = 0.75f64;
	assert_eq!(
		rx_gate(1, angle.to_bits(), 4),
		KernelCall::Rotation {
			gate: RotationKernel::RX,
			target: 1,
			angle: (-angle).to_bits(),
			dim: 4
		}
	);
	assert_eq!(
		rz_gate(0, (-angle).to_bits(), 4),
		KernelCall::Rotation { gate: RotationKernel::RZ, target: 0, angle: angle.to_bits(), dim: 4 }
	);
	// zero keeps its magnitude, only the sign bit changes
	assert_eq!(
		rx_gate(0, 0f64.to_bits(), 2),
		KernelCall::Rotation { gate: RotationKernel::RX, target: 0, angle: SIGN_BIT, dim: 2 }
	);
}

#[test]
fn wrap_splits_controls_into_indices_and_values() {
	let matrix = [re_only(1.), re_only(0.), re_only(0.), re_only(1.)];
	let gate = Gate::MultiControlledSingleTarget {
		controls: vec![(4, ControlValue::One), (1, ControlValue::Zero), (2, ControlValue::One)],
		target_index: 0,
		matrix,
		gate: DenseKernel::MultiQubitControlSingleQubitDenseMatrix,
	};
	assert_eq!(
		wrap(32, gate),
		KernelCall::MultiControlledSingleTarget {
			gate: DenseKernel::MultiQubitControlSingleQubitDenseMatrix,
			control_index_list: vec![4, 1, 2],
			control_value_list: vec![1, 0, 1],
			control_count: 3,
			target: 0,
			matrix,
			dim: 32,
		}
	);
}

#[test]
fn wrap_of_the_constructors() {
	assert_eq!(
		wrap(4, Gate::single_of(1, SingleKernel::H)),
		KernelCall::Single { gate: SingleKernel::H, target: 1, dim: 4 }
	);
	assert_eq!(
		wrap(4, Gate::rotation_of(1, 17, RotationKernel::RY)),
		KernelCall::Rotation { gate: RotationKernel::RY, target: 1, angle: 17, dim: 4 }
	);
}

#[test]
fn multi_control_without_controls() {
	let matrix = [re_only(0.), re_only(1.), re_only(1.), re_only(0.)];
	assert_eq!(
		multi_control_u_gate(&[], 0, matrix, 2),
		KernelCall::MultiControlledSingleTarget {
			gate: DenseKernel::MultiQubitControlSingleQubitDenseMatrix,
			control_index_list: vec![],
			control_value_list: vec![],
			control_count: 0,
			target: 0,
			matrix,
			dim: 2,
		}
	);
}

#[test]
fn control_values_as_numbers() {
	assert_eq!(ControlValue::Zero.number(), 0);
	assert_eq!(ControlValue::One.number(), 1);
}

#[test]
fn gates_fit_only_states_that_hold_their_qubits() {
	assert!(Gate::single_of(2, SingleKernel::X).fits(3));
	assert!(!Gate::single_of(3, SingleKernel::X).fits(3));
	assert!(Gate::rotation_of(0, 0, RotationKernel::RZ).fits(1));
	assert!(!Gate::rotation_of(0, 0, RotationKernel::RZ).fits(0));
	let controlled = |control, target| Gate::Controlled {
		control_qubit_index: control,
		target_qubit_index: target,
		gate: ControlledKernel::CNOT,
	};
	assert!(controlled(0, 1).fits(2));
	assert!(!controlled(1, 1).fits(2));
	assert!(!controlled(0, 2).fits(2));
	assert!(!controlled(2, 0).fits(2));
	let dense = |controls: Vec<(u32, ControlValue)>, target| Gate::MultiControlledSingleTarget {
		controls,
		target_index: target,
		matrix: [re_only(1.), re_only(0.), re_only(0.), re_only(1.)],
		gate: DenseKernel::MultiQubitControlSingleQubitDenseMatrix,
	};
	assert!(dense(vec![(0, ControlValue::One), (1, ControlValue::Zero)], 2).fits(3));
	assert!(dense(vec![], 0).fits(1));
	assert!(!dense(vec![(0, ControlValue::One), (0, ControlValue::Zero)], 2).fits(3));
	assert!(!dense(vec![(0, ControlValue::One), (2, ControlValue::One)], 2).fits(3));
	assert!(!dense(vec![(0, ControlValue::One), (3, ControlValue::One)], 2).fits(3));
	assert!(!dense(vec![(0, ControlValue::One)], 3).fits(3));
}

#[test]
fn amplitude_constants_are_the_float_patterns() {
	assert_eq!(ZERO_BITS, 0f64.to_bits());
	assert_eq!(ONE_BITS, 1f64.to_bits());
	assert_eq!(SIGN_BIT, (-0f64).to_bits());
	assert_eq!(Amplitude::zero(), re_only(0.));
	assert_eq!(Amplitude::one(), re_only(1.));
	let value = Amplitude::new(2.5f64.to_bits(), (-0.125f64).to_bits());
	let negated = value.negated();
	assert_eq!(f64::from_bits(negated.re), -2.5);
	assert_eq!(f64::from_bits(negated.im), 0.125);
	assert_eq!(negated.negated(), value);
}
