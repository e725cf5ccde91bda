use num::complex::Complex64;
use num::{Complex, One, Zero};
use qurs::measure::{
	is_ascending, marginal_probability_indices, sample_index, sampling, zero_probability_indices,
};
use qurs::prelude::{StateErr, StateMut, StateRef};
use qurs::state::{dimension, qubits_of_length};
use qurs::{Amplitude, StateVec};

const EPS: f64 = 1e-10;

fn assert_near(x: f64, y: f64, d: f64) {
	if (x - y).abs() >= d {
		panic!("assert_near fail; left: {} right:{}", x, y);
	}
}

fn seed_comp() -> Complex64 {
	Complex::new(rand::random(), rand::random())
}

fn amplitude_of(value: Complex64) -> Amplitude {
	Amplitude::new(value.re.to_bits(), value.im.to_bits())
}

fn complex_of(amplitude: Amplitude) -> Complex64 {
	Complex::new(f64::from_bits(amplitude.re), f64::from_bits(amplitude.im))
}

/// The cumulative distribution of a state, as keys in the order of the sums.
fn cumulative_keys(state: &[Amplitude]) -> Vec<u64> {
	let mut sum = 0.;
	let mut keys = Vec::new();
	for amplitude in state {
		sum += complex_of(*amplitude).norm_sqr();
		keys.push(sum.to_bits());
	}
	keys
}

fn probability_over(state: &[Amplitude], indices: &[u64]) -> f64 {
	indices.iter().map(|i| complex_of(state[*i as usize]).norm_sqr()).sum()
}

#[test]
fn test_impl() {
	assert_eq!([amplitude_of(seed_comp()); 1].qubit_count(), 0);
	assert_eq!([amplitude_of(seed_comp()); 2].qubit_count(), 1);
	assert_eq!([amplitude_of(seed_comp()); 16].qubit_count(), 4);
	assert_eq!([amplitude_of(seed_comp()); 128].qubit_count(), 7);

	let mut state = [amplitude_of(Complex::one()), amplitude_of(Complex::zero())];
	let random = seed_comp();
	state.set_amplitude(0, amplitude_of(random));
	assert_eq!(state, [amplitude_of(random), amplitude_of(Complex::zero())]);

	state.set_computational_basis(1);
	assert_eq!(state, [amplitude_of(Complex::zero()), amplitude_of(Complex::one())]);

	let draws: Vec<u64> = (0..5)
		.map(|_| {
			let r: f64 = rand::random();
			r.max(f64::MIN_POSITIVE).to_bits()
		})
		.collect();
	assert_eq!(sampling(&cumulative_keys(&state), &draws), [1; 5]);

	state.set_zero_state();
	assert_eq!(state, [amplitude_of(Complex::one()), amplitude_of(Complex::zero())]);

	let state = [
		amplitude_of(seed_comp()),
		amplitude_of(seed_comp()),
		amplitude_of(seed_comp()),
		amplitude_of(seed_comp()),
	];
	let probs: Vec<f64> = state.iter().map(|e| complex_of(*e).norm_sqr()).collect();
	assert_near(
		probability_over(&state, &zero_probability_indices(&state, 0).unwrap()),
		probs[0] + probs[2],
		EPS,
	);

	let tests = [
		(vec![0, 1], vec![0, 0], probs[0]),
		(vec![0, 1], vec![1, 0], probs[1]),
		(vec![0, 1], vec![0, 1], probs[2]),
		(vec![0, 1], vec![1, 1], probs[3]),
		(vec![0], vec![0], probs[0] + probs[2]),
		(vec![0], vec![1], probs[1] + probs[3]),
		(vec![1], vec![0], probs[0] + probs[1]),
		(vec![1], vec![1], probs[2] + probs[3]),
		(vec![], vec![], probs[0] + probs[1] + probs[2] + probs[3]),
	];

	for (i, j, prob) in tests {
		assert_near(
			probability_over(&state, &marginal_probability_indices(&state, &i, &j).unwrap()),
			prob,
			EPS,
		);
	}
}

#[test]
fn sampling_a_basis_state_returns_its_index() {
	let mut state = StateVec::new(2);
	state.set_computational_basis(1);
	let keys = cumulative_keys(state.as_ref());
	assert_eq!(keys, vec![0f64.to_bits(), 1f64.to_bits(), 1f64.to_bits(), 1f64.to_bits()]);
	assert!(is_ascending(&keys));
	let draws: Vec<u64> =
		[0.001f64, 0.25, 0.5, 0.75, 0.999].iter().map(|r| r.to_bits()).collect();
	assert_eq!(sampling(&keys, &draws), vec![1, 1, 1, 1, 1]);
}

#[test]
fn sampling_picks_the_first_key_not_below_the_draw() {
	let keys = [10, 11, 13, 13, 15];
	assert_eq!(sample_index(&keys, 9), 0);
	assert_eq!(sample_index(&keys, 10), 0);
	assert_eq!(sample_index(&keys, 11), 1);
	assert_eq!(sample_index(&keys, 12), 2);
	assert_eq!(sample_index(&keys, 13), 2);
	assert_eq!(sample_index(&keys, 14), 4);
	assert_eq!(sample_index(&keys, 15), 4);
	assert_eq!(sample_index(&keys, 16), 5);
	assert_eq!(sampling(&keys, &[16, 0, 13]), vec![5, 0, 2]);
	assert_eq!(sampling(&keys, &[]), Vec::<u64>::new());
	assert_eq!(sample_index(&[], 3), 0);
}

#[test]
fn sampling_a_uniform_state() {
	// cumulative distribution 1/4, 1/2, 3/4, 1
	let keys: Vec<u64> = [0.25f64, 0.5, 0.75, 1.0].iter().map(|f| f.to_bits()).collect();
	let draws: Vec<u64> = [0.0f64, 0.25, 0.26, 0.5, 0.74, 0.76, 0.9999]
		.iter()
		.map(|f| f.to_bits())
		.collect();
	assert_eq!(sampling(&keys, &draws), vec![0, 0, 1, 1, 2, 3, 3]);
}

#[test]
fn ascending_keys_are_told_from_falling_ones() {
	assert!(is_ascending(&[]));
	assert!(is_ascending(&[5]));
	assert!(is_ascending(&[1, 1, 2, 9]));
	assert!(!is_ascending(&[1, 3, 2, 9]));
	assert!(!is_ascending(&[2, 1]));
}

#[test]
fn zero_probability_of_a_qubit_outside_the_state_is_refused() {
	let state = StateVec::new(3);
	assert_eq!(zero_probability_indices(&state, 3), Err(StateErr::InvalidTargetQubitIndex(3)));
	assert_eq!(zero_probability_indices(&state, 70), Err(StateErr::InvalidTargetQubitIndex(70)));
	let none = StateVec::new(0);
	assert_eq!(zero_probability_indices(&none, 0), Err(StateErr::InvalidTargetQubitIndex(0)));
}

#[test]
fn zero_probability_indices_have_the_qubit_clear() {
	let state = StateVec::new(3);
	assert_eq!(zero_probability_indices(&state, 0), Ok(vec![0, 2, 4, 6]));
	assert_eq!(zero_probability_indices(&state, 1), Ok(vec![0, 1, 4, 5]));
	assert_eq!(zero_probability_indices(&state, 2), Ok(vec![0, 1, 2, 3]));
	let one = StateVec::new(1);
	assert_eq!(zero_probability_indices(&one, 0), Ok(vec![0]));
}

#[test]
fn zero_and_one_states_of_a_qubit_share_out_the_basis() {
	let state = StateVec::new(4);
	for qubit in 0..4 {
		let zero = marginal_probability_indices(&state, &[qubit], &[0]).unwrap();
		let one = marginal_probability_indices(&state, &[qubit], &[1]).unwrap();
		assert_eq!(zero, zero_probability_indices(&state, qubit as usize).unwrap());
		let mut all: Vec<u64> = zero.iter().chain(one.iter()).copied().collect();
		all.sort();
		assert_eq!(all, (0..16).collect::<Vec<u64>>());
	}
}

#[test]
fn marginal_probability_with_lists_of_two_lengths_is_refused() {
	let state = StateVec::new(2);
	assert_eq!(
		marginal_probability_indices(&state, &[0, 1], &[0]),
		Err(StateErr::InvalidTargetList(vec![0, 1]))
	);
	assert_eq!(
		marginal_probability_indices(&state, &[], &[1]),
		Err(StateErr::InvalidTargetList(vec![]))
	);
}

#[test]
fn marginal_probability_with_unfit_targets_is_refused() {
	let state = StateVec::new(2);
	// a qubit outside the state
	assert_eq!(
		marginal_probability_indices(&state, &[2], &[0]),
		Err(StateErr::InvalidTargetList(vec![2]))
	);
	// one qubit twice
	assert_eq!(
		marginal_probability_indices(&state, &[1, 1], &[0, 0]),
		Err(StateErr::InvalidTargetList(vec![1, 1]))
	);
	// a value that no qubit takes
	assert_eq!(
		marginal_probability_indices(&state, &[0], &[2]),
		Err(StateErr::InvalidTargetList(vec![0]))
	);
}

#[test]
fn marginal_probability_takes_targets_in_any_order() {
	let state = StateVec::new(4);
	assert_eq!(marginal_probability_indices(&state, &[2, 0], &[0, 1]), Ok(vec![1, 3, 9, 11]));
	assert_eq!(marginal_probability_indices(&state, &[0, 2], &[1, 0]), Ok(vec![1, 3, 9, 11]));
	assert_eq!(marginal_probability_indices(&state, &[3, 1, 0, 2], &[1, 0, 1, 0]), Ok(vec![9]));
}

#[test]
fn a_new_state_is_the_zero_state() {
	let state = StateVec::new(0);
	assert_eq!(state.qubit_count(), 0);
	assert_eq!(state.as_ref(), &vec![Amplitude::one()]);
	let state = StateVec::new(2);
	assert_eq!(state.qubit_count(), 2);
	assert_eq!(
		state.as_ref(),
		&vec![Amplitude::one(), Amplitude::zero(), Amplitude::zero(), Amplitude::zero()]
	);
	assert_eq!(state.amplitude(0), Amplitude::one());
	assert_eq!(state.amplitude(3), Amplitude::zero());
}

#[test]
fn push_appends_a_zero_qubit() {
	let mut v = StateVec::new(0);
	assert_eq!(v.qubit_count(), 0);
	assert_eq!(v.push(), 0);
	assert_eq!(v.qubit_count(), 1);
	assert_eq!(v.as_ref(), &vec![Amplitude::one(), Amplitude::zero()]);
	let x = Amplitude::new(7, 9);
	v.set_amplitude(1, x);
	assert_eq!(v.push(), 1);
	assert_eq!(v.qubit_count(), 2);
	assert_eq!(v.as_ref(), &vec![Amplitude::one(), x, Amplitude::zero(), Amplitude::zero()]);
}

#[test]
fn a_state_from_amplitudes_needs_a_full_buffer() {
	let x = Amplitude::new(1, 2);
	assert!(StateVec::from_amplitudes(2, vec![x; 4]).is_some());
	assert!(StateVec::from_amplitudes(2, vec![x; 3]).is_none());
	assert!(StateVec::from_amplitudes(0, vec![x; 1]).is_some());
	assert!(StateVec::from_amplitudes(0, vec![]).is_none());
	assert!(StateVec::from_amplitudes(64, vec![x; 1]).is_none());
	let state = StateVec::from_amplitudes(1, vec![x, Amplitude::one()]).unwrap();
	assert_eq!(state.qubit_count(), 1);
	assert_eq!(state.as_ref(), &vec![x, Amplitude::one()]);
}

#[test]
fn dimensions_and_qubit_counts() {
	assert_eq!(dimension(0), 1);
	assert_eq!(dimension(5), 32);
	assert_eq!(dimension(63), 1 << 63);
	assert_eq!(qubits_of_length(1), Some(0));
	assert_eq!(qubits_of_length(32), Some(5));
	assert_eq!(qubits_of_length(0), None);
	assert_eq!(qubits_of_length(3), None);
	assert_eq!(qubits_of_length(48), None);
}

#[test]
fn set_computational_basis_on_a_vector_state() {
	let mut state = StateVec::new(3);
	state.set_computational_basis(5);
	for index in 0..8u64 {
		let expected = if index == 5 { Amplitude::one() } else { Amplitude::zero() };
		assert_eq!(state.amplitude(index), expected);
	}
	state.set_zero_state();
	assert_eq!(state, StateVec::new(3));
}

#[test]
fn errors_in_words() {
	assert_eq!(
		StateErr::InconsistentStateLength(2, 4).message(),
		"Inconsistent state length: left state has length of 2, but right state has 4"
	);
	assert_eq!(
		StateErr::InvalidTargetQubitIndex(9).message(),
		"Invalid target qubit index: target qubit index must be smaller than qubit count, but 9 was supplied"
	);
	assert_eq!(StateErr::InvalidTargetList(vec![2, 0]).message(), "Invalid target list: [2, 0]");
}

#[test]
fn basis_states_have_norm_one_and_entropy_zero() {
	let mut state = StateVec::new(3);
	for index in [0usize, 5, 7] {
		if index == 0 {
			state.set_zero_state();
		} else {
			state.set_computational_basis(index);
		}
		let probabilities: Vec<f64> =
			state.as_ref().iter().map(|a| complex_of(*a).norm_sqr()).collect();
		let norm: f64 = probabilities.iter().sum();
		assert_near(norm, 1., EPS);
		let entropy: f64 = probabilities.iter().map(|p| -p * p.max(1e-15).ln()).sum();
		assert_near(entropy, 0., EPS);
		assert_eq!(probabilities[index], 1.);
	}
}

#[test]
fn zero_and_one_probabilities_add_up_to_the_norm() {
	let amplitudes: Vec<Amplitude> = (0..8).map(|_| amplitude_of(seed_comp())).collect();
	let state = StateVec::from_amplitudes(3, amplitudes).unwrap();
	let all: Vec<u64> = (0..8).collect();
	let norm = probability_over(state.as_ref(), &all);
	for qubit in 0..3u32 {
		let zero = zero_probability_indices(&state, qubit as usize).unwrap();
		let one = marginal_probability_indices(&state, &[qubit], &[1]).unwrap();
		let sum = probability_over(state.as_ref(), &zero) + probability_over(state.as_ref(), &one);
		assert_near(sum / norm, 1., EPS);
	}
}
