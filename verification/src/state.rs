//! Quantum states: an amplitude buffer of length `2^n` together with its
//! qubit count `n`, and the capabilities to read and to overwrite it.
use vstd::prelude::*;
use vstd::arithmetic::power2::pow2;
use vstd::arithmetic::power2::lemma_pow2_unfold;
use crate::bits::MAX_QUBITS;

verus! {

/// Bit pattern of the binary64 number `0.0`.
pub const ZERO_BITS: u64 = 0;

/// Bit pattern of the binary64 number `1.0`.
pub const ONE_BITS: u64 = 0x3FF0_0000_0000_0000;

/// The sign bit of a binary64 number.
pub const SIGN_BIT: u64 = 0x8000_0000_0000_0000;

/// A complex amplitude, held as the IEEE 754 binary64 bit patterns of its
/// real and imaginary parts. The library moves amplitudes and flips their
/// signs; it never computes with their numeric values.
#[derive(Clone, Copy, Debug, PartialEq, Eq, Structural)]
pub struct Amplitude {
    pub re: u64,
    pub im: u64,
}

impl Amplitude {
    /// The amplitude `0 + 0i`.
    pub open spec fn spec_zero() -> Amplitude {
        Amplitude { re: ZERO_BITS, im: ZERO_BITS }
    }

    /// The amplitude `1 + 0i`.
    pub open spec fn spec_one() -> Amplitude {
        Amplitude { re: ONE_BITS, im: ZERO_BITS }
    }

    /// The amplitude with both signs flipped.
    pub open spec fn spec_negated(self) -> Amplitude {
        Amplitude { re: self.re ^ SIGN_BIT, im: self.im ^ SIGN_BIT }
    }

    /// An amplitude from the bit patterns of its two parts.
    pub fn new(re: u64, im: u64) -> (amplitude: Amplitude)
        ensures
            amplitude == (Amplitude { re, im }),
    {
        Amplitude { re, im }
    }

    /// The amplitude `0 + 0i`.
    pub fn zero() -> (amplitude: Amplitude)
        ensures
            amplitude == Amplitude::spec_zero(),
    {
        Amplitude { re: ZERO_BITS, im: ZERO_BITS }
    }

    /// The amplitude `1 + 0i`.
    pub fn one() -> (amplitude: Amplitude)
        ensures
            amplitude == Amplitude::spec_one(),
    {
        Amplitude { re: ONE_BITS, im: ZERO_BITS }
    }

    /// The negated amplitude: the sign bit of each part is flipped, every
    /// other bit stays.
    pub fn negated(self) -> (amplitude: Amplitude)
        ensures
            amplitude == self.spec_negated(),
    {
        Amplitude { re: self.re ^ SIGN_BIT, im: self.im ^ SIGN_BIT }
    }
}

/// Negating twice gives the amplitude back.
pub proof fn lemma_negated_twice(amplitude: Amplitude)
    ensures
        amplitude.spec_negated().spec_negated() == amplitude,
{
    let re = amplitude.re;
    let im = amplitude.im;
    assert((re ^ SIGN_BIT) ^ SIGN_BIT == re) by (bit_vector);
    assert((im ^ SIGN_BIT) ^ SIGN_BIT == im) by (bit_vector);
}

/// What an operation on states reports when its arguments do not fit.
#[non_exhaustive]
#[derive(Debug, PartialEq, Eq)]
pub enum StateErr {
    /// Two buffers that must have one length have these two.
    InconsistentStateLength(usize, usize),
    /// A qubit index that is not below the qubit count.
    InvalidTargetQubitIndex(usize),
    /// A list of qubits that does not fit the state or its list of values.
    InvalidTargetList(Vec<u32>),
}

/// The decimal digits of `number`, as std writes an unsigned integer.
pub uninterp spec fn decimal_text(number: usize) -> Seq<char>;

/// The text of `list` in std's debug format for a vector of integers.
pub uninterp spec fn list_text(list: Seq<u32>) -> Seq<char>;

/// `ToString::to_string` of std on a `usize`: the number in decimal digits,
/// a text that depends on the number alone.
#[verifier::external_body]
fn decimal(number: usize) -> (text: String)
    ensures
        text@ == decimal_text(number),
{
    number.to_string()
}

/// `format!` of std with `{:?}` on a vector of `u32`: the debug text of the
/// list, which depends on its entries alone.
#[verifier::external_body]
fn list_debug(list: &Vec<u32>) -> (text: String)
    ensures
        text@ == list_text(list@),
{
    format!("{:?}", list)
}

/// `String::push_str` of std: appends `tail` to the end of `text`.
#[verifier::external_body]
fn append(text: &mut String, tail: &str)
    ensures
        final(text)@ == old(text)@ + tail@,
{
    text.push_str(tail)
}

impl StateErr {
    /// The error in words, with the values it carries.
    pub open spec fn spec_message(self) -> Seq<char> {
        match self {
            StateErr::InconsistentStateLength(left, right) => {
                "Inconsistent state length: left state has length of "@ + decimal_text(left)
                    + ", but right state has "@ + decimal_text(right)
            },
            StateErr::InvalidTargetQubitIndex(index) => {
                "Invalid target qubit index: target qubit index must be smaller than qubit count, but "@
                    + decimal_text(index) + " was supplied"@
            },
            StateErr::InvalidTargetList(list) => "Invalid target list: "@ + list_text(list@),
        }
    }

    /// The error in words, with the values it carries.
    pub fn message(&self) -> (text: String)
        ensures
            text@ == self.spec_message(),
    {
        match self {
            StateErr::InconsistentStateLength(left, right) => {
                let mut text = "Inconsistent state length: left state has length of ".to_owned();
                append(&mut text, decimal(*left).as_str());
                append(&mut text, ", but right state has ");
                append(&mut text, decimal(*right).as_str());
                text
            },
            StateErr::InvalidTargetQubitIndex(index) => {
                let mut text =
                    "Invalid target qubit index: target qubit index must be smaller than qubit count, but ".to_owned();
                append(&mut text, decimal(*index).as_str());
                append(&mut text, " was supplied");
                text
            },
            StateErr::InvalidTargetList(list) => {
                let mut text = "Invalid target list: ".to_owned();
                append(&mut text, list_debug(list).as_str());
                text
            },
        }
    }
}

/// The number of basis states of `qubits` qubits.
pub open spec fn spec_dimension(qubits: nat) -> nat {
    pow2(qubits)
}

/// The computational basis state `index` of `qubits` qubits: amplitude one
/// at `index`, zero elsewhere.
pub open spec fn basis_state(qubits: nat, index: nat) -> Seq<Amplitude> {
    Seq::new(
        spec_dimension(qubits),
        |i: int|
            if i == index {
                Amplitude::spec_one()
            } else {
                Amplitude::spec_zero()
            },
    )
}

/// For at most 63 qubits the dimension is the 64-bit number `1 << qubits`.
pub proof fn lemma_dimension_shift(qubits: nat)
    requires
        qubits <= 63,
    ensures
        (1u64 << (qubits as u64)) == spec_dimension(qubits),
        spec_dimension(qubits) >= 1,
{
    vstd::bits::lemma_u64_pow2_no_overflow(qubits);
    vstd::bits::lemma_u64_shl_is_mul(1, qubits as u64);
}

/// The number of basis states of `qubit_count` qubits.
pub fn dimension(qubit_count: usize) -> (dim: u64)
    requires
        qubit_count <= MAX_QUBITS,
    ensures
        dim == spec_dimension(qubit_count as nat),
        dim == (1u64 << (qubit_count as u64)),
        dim >= 1,
{
    proof {
        lemma_dimension_shift(qubit_count as nat);
    }
    1u64 << (qubit_count as u64)
}

/// The buffer holds one amplitude for each basis state of `qubits` qubits,
/// and their dimension fits in 64 bits.
pub open spec fn buffer_fits(qubits: nat, amplitudes: Seq<Amplitude>) -> bool {
    &&& qubits <= MAX_QUBITS
    &&& amplitudes.len() == spec_dimension(qubits)
}

/// The buffer of `state` holds one amplitude for each basis state of its
/// qubits.
pub open spec fn well_formed<S: StateRef>(state: &S) -> bool {
    buffer_fits(state.qubits(), state.amplitudes())
}

/// Read access to a quantum state.
pub trait StateRef {
    /// The qubit count of the state.
    spec fn qubits(&self) -> nat;

    /// The amplitude buffer of the state.
    spec fn amplitudes(&self) -> Seq<Amplitude>;

    /// Get qubit count
    fn qubit_count(&self) -> (count: usize)
        requires
            buffer_fits(self.qubits(), self.amplitudes()),
        ensures
            count == self.qubits(),
            count <= MAX_QUBITS,
    ;

    /// The amplitude of basis state `index`.
    fn amplitude(&self, index: u64) -> (amplitude: Amplitude)
        requires
            buffer_fits(self.qubits(), self.amplitudes()),
            index < spec_dimension(self.qubits()),
        ensures
            amplitude == self.amplitudes()[index as int],
    ;
}

/// Write access to a quantum state.
pub trait StateMut: StateRef {
    /// Set state to |0>
    fn set_zero_state(&mut self)
        requires
            buffer_fits(old(self).qubits(), old(self).amplitudes()),
        ensures
            buffer_fits(final(self).qubits(), final(self).amplitudes()),
            final(self).qubits() == old(self).qubits(),
            final(self).amplitudes() == basis_state(old(self).qubits(), 0),
    ;

    /// Set state to computational basis
    fn set_computational_basis(&mut self, comp_basis: usize)
        requires
            buffer_fits(old(self).qubits(), old(self).amplitudes()),
            comp_basis < spec_dimension(old(self).qubits()),
        ensures
            buffer_fits(final(self).qubits(), final(self).amplitudes()),
            final(self).qubits() == old(self).qubits(),
            final(self).amplitudes() == basis_state(old(self).qubits(), comp_basis as nat),
    ;

    /// Overwrite the amplitude of basis state `index`.
    fn set_amplitude(&mut self, index: u64, amplitude: Amplitude)
        requires
            buffer_fits(old(self).qubits(), old(self).amplitudes()),
            index < spec_dimension(old(self).qubits()),
        ensures
            buffer_fits(final(self).qubits(), final(self).amplitudes()),
            final(self).qubits() == old(self).qubits(),
            final(self).amplitudes() == old(self).amplitudes().update(index as int, amplitude),
    ;
}

/// Read access to a pure state.
pub trait PureStateRef: StateRef {

}

/// Write access to a pure state.
pub trait PureStateMut: PureStateRef + StateMut {

}

/// Read access to a general (mixed) state.
pub trait GeneralStateRef {

}

/// Write access to a general (mixed) state.
pub trait GeneralStateMut {

}

/// A growable quantum state: the qubit count and its amplitude buffer.
#[derive(Debug, PartialEq, Eq)]
pub struct StateVec {
    qubits: usize,
    buffer: Vec<Amplitude>,
}

impl StateVec {
    /// The qubit count.
    pub open spec fn spec_qubits(&self) -> nat {
        self.qubits()
    }

    /// The amplitude buffer.
    pub open spec fn view(&self) -> Seq<Amplitude> {
        self.amplitudes()
    }

    /// The buffer holds one amplitude for each basis state of the qubits.
    pub open spec fn wf(&self) -> bool {
        well_formed(self)
    }

    /// The state |0...0> of `n` qubits.
    pub fn new(n: usize) -> (state: Self)
        requires
            n <= MAX_QUBITS,
        ensures
            state.wf(),
            state.spec_qubits() == n,
            state@ == basis_state(n as nat, 0),
    {
        let dim: u64 = dimension(n);
        let mut buffer: Vec<Amplitude> = Vec::new();
        buffer.push(Amplitude::one());
        let mut filled: u64 = 1;
        while filled < dim
            invariant
                1 <= filled <= dim,
                buffer@.len() == filled,
                buffer@[0] == Amplitude::spec_one(),
                forall|i: int| 1 <= i < filled ==> buffer@[i] == Amplitude::spec_zero(),
            decreases dim - filled,
        {
            buffer.push(Amplitude::zero());
            filled += 1;
        }
        assert(buffer@ =~= basis_state(n as nat, 0));
        StateVec { qubits: n, buffer }
    }

    /// A state over the given buffer, if the buffer holds one amplitude for
    /// each basis state of `n` qubits.
    pub fn from_amplitudes(n: usize, amplitudes: Vec<Amplitude>) -> (state: Option<Self>)
        ensures
            state.is_some() <==> n <= MAX_QUBITS && amplitudes@.len() == spec_dimension(n as nat),
            state matches Some(s) ==> s.wf() && s.spec_qubits() == n && s@ == amplitudes@,
    {
        if n > MAX_QUBITS {
            return None;
        }
        let dim: u64 = dimension(n);
        if amplitudes.len() as u64 != dim {
            return None;
        }
        Some(StateVec { qubits: n, buffer: amplitudes })
    }

    /// Append an qubit initialized to |0> at end of this `StateVec`.
    ///
    /// Returns the index of added qubit.
    pub fn push(&mut self) -> (added: usize)
        requires
            old(self).wf(),
            old(self).spec_qubits() < MAX_QUBITS,
        ensures
            final(self).wf(),
            added == old(self).spec_qubits(),
            final(self).spec_qubits() == old(self).spec_qubits() + 1,
            final(self)@ == old(self)@ + Seq::new(old(self)@.len(), |i: int| Amplitude::spec_zero()),
    {
        let dim: u64 = dimension(self.qubits);
        let ghost before = self.buffer@;
        let mut added: u64 = 0;
        while added < dim
            invariant
                added <= dim,
                dim == before.len(),
                self.qubits == old(self).qubits,
                self.buffer@.len() == before.len() + added,
                forall|i: int| 0 <= i < before.len() ==> self.buffer@[i] == before[i],
                forall|i: int|
                    before.len() <= i < before.len() + added ==> self.buffer@[i]
                        == Amplitude::spec_zero(),
            decreases dim - added,
        {
            self.buffer.push(Amplitude::zero());
            added += 1;
        }
        proof {
            lemma_pow2_unfold((self.qubits + 1) as nat);
            assert(self.buffer@ =~= before + Seq::new(before.len(), |i: int| Amplitude::spec_zero()));
        }
        self.qubits += 1;
        self.qubits - 1
    }

    /// The amplitude buffer.
    pub fn as_ref(&self) -> (buffer: &Vec<Amplitude>)
        ensures
            buffer@ == self@,
    {
        &self.buffer
    }
}

impl StateRef for StateVec {
    closed spec fn qubits(&self) -> nat {
        self.qubits as nat
    }

    closed spec fn amplitudes(&self) -> Seq<Amplitude> {
        self.buffer@
    }

    fn qubit_count(&self) -> (count: usize) {
        self.qubits
    }

    fn amplitude(&self, index: u64) -> (amplitude: Amplitude) {
        let len: usize = self.buffer.len();
        assert(index < len);
        self.buffer[index as usize]
    }
}

impl StateMut for StateVec {
    fn set_zero_state(&mut self) {
        proof {
            lemma_dimension_shift(self.qubits());
        }
        self.set_computational_basis(0);
    }

    fn set_computational_basis(&mut self, comp_basis: usize) {
        let len: usize = self.buffer.len();
        let mut i: usize = 0;
        while i < len
            invariant
                i <= len,
                len == self.buffer@.len(),
                self.qubits == old(self).qubits,
                forall|k: int| 0 <= k < i ==> self.buffer@[k] == Amplitude::spec_zero(),
            decreases len - i,
        {
            self.buffer.set(i, Amplitude::zero());
            i += 1;
        }
        self.buffer.set(comp_basis, Amplitude::one());
        assert(self.buffer@ =~= basis_state(old(self).qubits(), comp_basis as nat));
    }

    fn set_amplitude(&mut self, index: u64, amplitude: Amplitude) {
        let len: usize = self.buffer.len();
        assert(index < len);
        self.buffer.set(index as usize, amplitude);
    }
}

impl PureStateRef for StateVec {

}

impl PureStateMut for StateVec {

}

/// The qubit count of a buffer of `length` amplitudes: the `n` with
/// `2^n == length`, where there is one.
pub open spec fn spec_qubits_of_length(length: nat) -> nat {
    choose|n: nat| spec_dimension(n) == length
}

/// A length is the dimension of at most one qubit count.
pub proof fn lemma_qubits_of_dimension(qubits: nat)
    ensures
        spec_qubits_of_length(spec_dimension(qubits)) == qubits,
{
    let found = spec_qubits_of_length(spec_dimension(qubits));
    assert(spec_dimension(qubits) == spec_dimension(qubits));
    assert(spec_dimension(found) == spec_dimension(qubits));
    if found < qubits {
        vstd::arithmetic::power2::lemma_pow2_strictly_increases(found, qubits);
    }
    if qubits < found {
        vstd::arithmetic::power2::lemma_pow2_strictly_increases(qubits, found);
    }
}

/// The qubit count of a buffer of `length` amplitudes, if the length is the
/// dimension of some count of at most 63 qubits.
pub fn qubits_of_length(length: usize) -> (count: Option<usize>)
    ensures
        count.is_some() <==> exists|n: nat| n <= MAX_QUBITS && spec_dimension(n) == length,
        count matches Some(n) ==> n <= MAX_QUBITS && spec_dimension(n as nat) == length && n
            == spec_qubits_of_length(length as nat),
{
    let mut n: usize = 0;
    while n <= MAX_QUBITS
        invariant
            n <= MAX_QUBITS + 1,
            forall|m: nat| m < n ==> spec_dimension(m) != length,
        decreases MAX_QUBITS + 1 - n,
    {
        let dim: u64 = dimension(n);
        if dim == length as u64 {
            proof {
                lemma_qubits_of_dimension(n as nat);
            }
            return Some(n);
        }
        n += 1;
    }
    None
}

/// A fixed-capacity quantum state: an array whose length is the dimension
/// of its qubit count.
impl<const N: usize> StateRef for [Amplitude; N] {
    open spec fn qubits(&self) -> nat {
        spec_qubits_of_length(N as nat)
    }

    open spec fn amplitudes(&self) -> Seq<Amplitude> {
        self@
    }

    fn qubit_count(&self) -> (count: usize) {
        let found = qubits_of_length(N);
        found.unwrap()
    }

    fn amplitude(&self, index: u64) -> (amplitude: Amplitude) {
        self[index as usize]
    }
}

/// An array whose length is the dimension of `qubits` qubits is a state of
/// that many qubits.
pub proof fn lemma_array_fits<const N: usize>(state: &[Amplitude; N], qubits: nat)
    requires
        qubits <= MAX_QUBITS,
        spec_dimension(qubits) == N,
    ensures
        well_formed(state),
        state.qubits() == qubits,
{
    lemma_qubits_of_dimension(qubits);
}

impl<const N: usize> StateMut for [Amplitude; N] {
    fn set_zero_state(&mut self) {
        proof {
            lemma_dimension_shift(self.qubits());
        }
        self.set_computational_basis(0);
    }

    fn set_computational_basis(&mut self, comp_basis: usize) {
        let mut i: usize = 0;
        while i < N
            invariant
                i <= N,
                forall|k: int| 0 <= k < i ==> self@[k] == Amplitude::spec_zero(),
            decreases N - i,
        {
            self[i] = Amplitude::zero();
            i += 1;
        }
        self[comp_basis] = Amplitude::one();
        assert(self@ =~= basis_state(old(self).qubits(), comp_basis as nat));
    }

    fn set_amplitude(&mut self, index: u64, amplitude: Amplitude) {
        self[index as usize] = amplitude;
    }
}

impl<const N: usize> PureStateRef for [Amplitude; N] {

}

impl<const N: usize> PureStateMut for [Amplitude; N] {

}

} // verus!
