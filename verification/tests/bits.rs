use qurs::bits::{
	all_below, all_distinct, check_fixed_bits, check_order, find_target, insert_bit, insert_bits,
	permute_index, MAX_QUBITS,
};

#[test]
fn insert_bit_opens_a_zero_bit() {
	assert_eq!(insert_bit(0b0, 0), 0b0);
	assert_eq!(insert_bit(0b1, 0), 0b10);
	assert_eq!(insert_bit(0b1, 1), 0b01);
	assert_eq!(insert_bit(0b111, 1), 0b1101);
	assert_eq!(insert_bit(0b111, 3), 0b0111);
	assert_eq!(insert_bit(0b1011, 2), 0b10011);
	assert_eq!(insert_bit(5, 63), 5);
	assert_eq!(insert_bit((1 << 63) - 1, 0), u64::MAX - 1);
	assert_eq!(insert_bit((1 << 63) - 1, 62), u64::MAX - (1 << 62));
}

#[test]
fn insert_bit_lists_the_states_with_a_clear_qubit() {
	for position in 0..4u32 {
		let listed: Vec<u64> = (0..8).map(|k| insert_bit(k, position)).collect();
		let expected: Vec<u64> = (0..16).filter(|i| (i >> position) & 1 == 0).collect();
		assert_eq!(listed, expected);
	}
}

#[test]
fn insert_bits_fixes_the_named_qubits() {
	let listed: Vec<u64> = (0..4).map(|k| insert_bits(k, &[2, 0], &[0, 1], 4)).collect();
	assert_eq!(listed, vec![1, 3, 9, 11]);
	let listed: Vec<u64> = (0..4).map(|k| insert_bits(k, &[0, 2], &[1, 0], 4)).collect();
	assert_eq!(listed, vec![1, 3, 9, 11]);
	assert_eq!(insert_bits(0b101, &[], &[], 3), 0b101);
	assert_eq!(insert_bits(0, &[1, 0], &[1, 1], 2), 0b11);
	assert_eq!(insert_bits(0b11, &[1], &[0], 3), 0b101);
	assert_eq!(insert_bits(0b11, &[1], &[1], 3), 0b111);
	assert_eq!(insert_bits(0, &[62], &[1], 63), 1 << 62);
}

#[test]
fn insert_bits_with_one_zero_pair_is_insert_bit() {
	for position in 0..5u32 {
		for k in 0..16u64 {
			assert_eq!(insert_bits(k, &[position], &[0], 5), insert_bit(k, position));
		}
	}
}

#[test]
fn permute_index_moves_each_bit_to_its_place() {
	let corr = [0, 2, 1, 3, 4, 6, 5, 7];
	for i in 0..8u64 {
		assert_eq!(permute_index(i, &[1, 0, 2]), corr[i as usize]);
	}
	assert_eq!(permute_index(0b001, &[2, 0, 1]), 0b100);
	assert_eq!(permute_index(0b010, &[2, 0, 1]), 0b001);
	assert_eq!(permute_index(0b100, &[2, 0, 1]), 0b010);
	assert_eq!(permute_index(0, &[]), 0);
}

#[test]
fn permute_index_under_the_identity_order() {
	for i in 0..16u64 {
		assert_eq!(permute_index(i, &[0, 1, 2, 3]), i);
	}
}

#[test]
fn lists_are_checked() {
	assert!(all_below(&[0, 3, 2], 4));
	assert!(!all_below(&[0, 4, 2], 4));
	assert!(all_below(&[], 0));
	assert!(all_distinct(&[5, 1, 9]));
	assert!(!all_distinct(&[5, 1, 5]));
	assert!(all_distinct(&[]));
	assert_eq!(find_target(&[4, 2, 7], 2), Some(1));
	assert_eq!(find_target(&[4, 2, 7], 3), None);
	assert!(check_fixed_bits(3, &[2, 0], &[1, 0]));
	assert!(!check_fixed_bits(3, &[2, 0], &[1]));
	assert!(!check_fixed_bits(3, &[3], &[1]));
	assert!(!check_fixed_bits(3, &[1], &[2]));
	assert!(!check_fixed_bits(3, &[1, 1], &[0, 0]));
	assert!(check_order(3, &[2, 0, 1]));
	assert!(!check_order(3, &[2, 0]));
	assert!(!check_order(3, &[2, 0, 3]));
	assert!(!check_order(3, &[2, 0, 2]));
	assert!(check_order(0, &[]));
	assert_eq!(MAX_QUBITS, 63);
}
