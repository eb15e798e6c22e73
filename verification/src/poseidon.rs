//! The Poseidon sponge over the scalar field of BN254, its parameters, and the
//! domain-tagged hashes of the commitment scheme and of the Merkle tree.

use crate::field::{be_value, modulus, FieldElement};
use ark_bn254::Fr;
use ark_crypto_primitives::sponge::poseidon::{
    find_poseidon_ark_and_mds, PoseidonConfig, PoseidonSponge,
};
use ark_crypto_primitives::sponge::CryptographicSponge;
use ark_ff::{BigInteger, PrimeField};
use vstd::prelude::*;

verus! {

/// Number of field elements that the sponge takes in per permutation.
pub const POSEIDON_RATE: usize = 3;

/// Number of state elements that input never touches.
pub const POSEIDON_CAPACITY: usize = 1;

/// Exponent of the S-box.
pub const POSEIDON_ALPHA: u64 = 5;

/// Rounds that apply the S-box to the whole state.
pub const POSEIDON_FULL_ROUNDS: usize = 8;

/// Rounds that apply the S-box to the first state element only.
pub const POSEIDON_PARTIAL_ROUNDS: usize = 56;

/// Tag of a commitment to an identity.
pub const DOMAIN_COMMITMENT: u64 = 1;

/// Tag of a leaf of the Merkle tree.
pub const DOMAIN_LEAF: u64 = 2;

/// Tag of an inner node of the Merkle tree.
pub const DOMAIN_NODE: u64 = 3;

/// The values of a list of field elements.
pub open spec fn values(elements: Seq<FieldElement>) -> Seq<nat> {
    Seq::new(elements.len(), |i: int| elements[i]@)
}

/// The values of a matrix of field elements, row by row.
pub open spec fn matrix_values(rows: Seq<Vec<FieldElement>>) -> Seq<Seq<nat>> {
    Seq::new(rows.len(), |i: int| values(rows[i]@))
}

/// What a set of Poseidon parameters holds.
pub struct PoseidonParamsView {
    pub full_rounds: nat,
    pub partial_rounds: nat,
    pub alpha: nat,
    pub ark: Seq<Seq<nat>>,
    pub mds: Seq<Seq<nat>>,
    pub rate: nat,
    pub capacity: nat,
}

/// Round constants and MDS matrix that the Grain LFSR search gives for the
/// scalar field of BN254 at the given rate, round numbers and number of
/// skipped matrices.
pub uninterp spec fn poseidon_ark_and_mds(
    rate: nat,
    full_rounds: nat,
    partial_rounds: nat,
    skip_matrices: nat,
) -> (Seq<Seq<nat>>, Seq<Seq<nat>>);

/// What a fresh Poseidon sponge with the given parameters squeezes out first
/// after it has absorbed `inputs` in one batch.
pub uninterp spec fn poseidon(params: PoseidonParamsView, inputs: Seq<nat>) -> nat;

/// The parameters that every hash of this library is made with.
pub open spec fn standard_params() -> PoseidonParamsView {
    let search = poseidon_ark_and_mds(
        POSEIDON_RATE as nat,
        POSEIDON_FULL_ROUNDS as nat,
        POSEIDON_PARTIAL_ROUNDS as nat,
        0,
    );
    PoseidonParamsView {
        full_rounds: POSEIDON_FULL_ROUNDS as nat,
        partial_rounds: POSEIDON_PARTIAL_ROUNDS as nat,
        alpha: POSEIDON_ALPHA as nat,
        ark: search.0,
        mds: search.1,
        rate: POSEIDON_RATE as nat,
        capacity: POSEIDON_CAPACITY as nat,
    }
}

/// Whether every entry of a matrix is a valid field element.
pub open spec fn all_valid(matrix: Seq<Vec<FieldElement>>) -> bool {
    forall|i: int, j: int|
        0 <= i < matrix.len() && 0 <= j < matrix[i]@.len() ==> (#[trigger] matrix[i]@[j]).valid()
}

/// Whether a matrix has `rows` rows of `columns` entries each.
pub open spec fn has_shape(matrix: Seq<Vec<FieldElement>>, rows: int, columns: int) -> bool {
    &&& matrix.len() == rows
    &&& forall|i: int| 0 <= i < matrix.len() ==> (#[trigger] matrix[i])@.len() == columns
}

/// Whether a matrix of values has `rows` rows of `columns` entries each, every
/// entry below the field order.
pub open spec fn is_matrix(matrix: Seq<Seq<nat>>, rows: int, columns: int) -> bool {
    &&& matrix.len() == rows
    &&& forall|i: int| 0 <= i < matrix.len() ==> (#[trigger] matrix[i]).len() == columns
    &&& forall|i: int, j: int|
        0 <= i < matrix.len() && 0 <= j < matrix[i].len() ==> (#[trigger] matrix[i][j]) < modulus()
}

/// Parameters of a Poseidon sponge.
#[derive(Debug, PartialEq, Eq)]
pub struct PoseidonParams {
    pub(crate) full_rounds: usize,
    pub(crate) partial_rounds: usize,
    pub(crate) alpha: u64,
    pub(crate) ark: Vec<Vec<FieldElement>>,
    pub(crate) mds: Vec<Vec<FieldElement>>,
    pub(crate) rate: usize,
    pub(crate) capacity: usize,
}

impl View for PoseidonParams {
    type V = PoseidonParamsView;

    closed spec fn view(&self) -> PoseidonParamsView {
        PoseidonParamsView {
            full_rounds: self.full_rounds as nat,
            partial_rounds: self.partial_rounds as nat,
            alpha: self.alpha as nat,
            ark: matrix_values(self.ark@),
            mds: matrix_values(self.mds@),
            rate: self.rate as nat,
            capacity: self.capacity as nat,
        }
    }
}

impl PoseidonParams {
    /// The shape that a sponge needs of its parameters: one row of round
    /// constants per round, a square MDS matrix, both as wide as the state,
    /// and a rate of at least one.
    #[verifier::type_invariant]
    pub closed spec fn well_formed(self) -> bool {
        &&& self.rate >= 1
        &&& self.rate + self.capacity <= usize::MAX
        &&& self.full_rounds + self.partial_rounds <= usize::MAX
        &&& has_shape(self.ark@, self.full_rounds + self.partial_rounds, self.rate + self.capacity)
        &&& has_shape(self.mds@, self.rate + self.capacity, self.rate + self.capacity)
    }

    /// Number of rounds that apply the S-box to the whole state.
    pub fn full_rounds(&self) -> (n: usize)
        ensures
            n == self@.full_rounds,
    {
        self.full_rounds
    }

    /// Number of rounds that apply the S-box to the first state element only.
    pub fn partial_rounds(&self) -> (n: usize)
        ensures
            n == self@.partial_rounds,
    {
        self.partial_rounds
    }

    /// Exponent of the S-box.
    pub fn alpha(&self) -> (n: u64)
        ensures
            n == self@.alpha,
    {
        self.alpha
    }

    /// Number of field elements that the sponge takes in per permutation.
    pub fn rate(&self) -> (n: usize)
        ensures
            n == self@.rate,
    {
        self.rate
    }

    /// Number of state elements that input never touches.
    pub fn capacity(&self) -> (n: usize)
        ensures
            n == self@.capacity,
    {
        self.capacity
    }

    /// The round constants, one row per round.
    pub fn ark(&self) -> (rows: &Vec<Vec<FieldElement>>)
        ensures
            matrix_values(rows@) == self@.ark,
    {
        &self.ark
    }

    /// The MDS matrix, row by row.
    pub fn mds(&self) -> (rows: &Vec<Vec<FieldElement>>)
        ensures
            matrix_values(rows@) == self@.mds,
    {
        &self.mds
    }
}

/// The parameters of the sponge: rate 3, capacity 1, S-box exponent 5, 8 full
/// and 56 partial rounds, round constants and MDS matrix from the Grain LFSR
/// search without skipped matrices. There is one row of round constants per
/// round, the MDS matrix is square, and both are as wide as the state.
pub fn poseidon_params() -> (params: PoseidonParams)
    ensures
        params@ == standard_params(),
        is_matrix(
            params@.ark,
            POSEIDON_FULL_ROUNDS + POSEIDON_PARTIAL_ROUNDS,
            POSEIDON_RATE + POSEIDON_CAPACITY,
        ),
        is_matrix(
            params@.mds,
            POSEIDON_RATE + POSEIDON_CAPACITY,
            POSEIDON_RATE + POSEIDON_CAPACITY,
        ),
{
    let (ark, mds) = search_ark_and_mds(
        POSEIDON_RATE,
        POSEIDON_FULL_ROUNDS as u64,
        POSEIDON_PARTIAL_ROUNDS as u64,
        0,
    );
    proof {
        let width: int = POSEIDON_RATE + POSEIDON_CAPACITY;
        lemma_matrix(ark@, POSEIDON_FULL_ROUNDS + POSEIDON_PARTIAL_ROUNDS, width);
        lemma_matrix(mds@, width, width);
    }
    PoseidonParams {
        full_rounds: POSEIDON_FULL_ROUNDS,
        partial_rounds: POSEIDON_PARTIAL_ROUNDS,
        alpha: POSEIDON_ALPHA,
        ark,
        mds,
        rate: POSEIDON_RATE,
        capacity: POSEIDON_CAPACITY,
    }
}

/// The values of a matrix of valid field elements are a matrix of its shape.
proof fn lemma_matrix(matrix: Seq<Vec<FieldElement>>, rows: int, columns: int)
    requires
        has_shape(matrix, rows, columns),
        all_valid(matrix),
    ensures
        is_matrix(matrix_values(matrix), rows, columns),
{
    let shown = matrix_values(matrix);
    assert forall|i: int| 0 <= i < shown.len() implies (#[trigger] shown[i]).len() == columns by {
        assert(matrix[i]@.len() == columns);
    }
    assert forall|i: int, j: int| 0 <= i < shown.len() && 0 <= j < shown[i].len() implies (
    #[trigger] shown[i][j]) < modulus() by {
        assert(matrix[i]@[j].valid());
        crate::field::lemma_encoding(matrix[i]@[j]);
    }
}

/// The Poseidon hash of `inputs`: absorb them in one batch, squeeze one element.
pub fn poseidon_hash_native(params: &PoseidonParams, inputs: &Vec<FieldElement>) -> (out:
    FieldElement)
    ensures
        out@ == poseidon(params@, values(inputs@)),
        out.valid(),
{
    proof {
        use_type_invariant(params);
    }
    let bytes = absorb_and_squeeze(params, inputs);
    FieldElement::from_canonical(bytes)
}

/// The commitment to an identity under a blinding: `H(1, identity, blinding)`.
pub fn commitment_hash(params: &PoseidonParams, identity: FieldElement, blinding: FieldElement) -> (out:
    FieldElement)
    ensures
        out@ == commitment(params@, identity@, blinding@),
        out.valid(),
{
    let inputs = vec![FieldElement::from_u64(DOMAIN_COMMITMENT), identity, blinding];
    assert(values(inputs@) =~= seq![DOMAIN_COMMITMENT as nat, identity@, blinding@]);
    poseidon_hash_native(params, &inputs)
}

/// The leaf that holds a commitment: `H(2, commitment, 0)`.
pub fn leaf_hash(params: &PoseidonParams, commitment: FieldElement) -> (out: FieldElement)
    ensures
        out@ == leaf(params@, commitment@),
        out.valid(),
{
    let inputs = vec![FieldElement::from_u64(DOMAIN_LEAF), commitment, FieldElement::from_u64(0)];
    assert(values(inputs@) =~= seq![DOMAIN_LEAF as nat, commitment@, 0nat]);
    poseidon_hash_native(params, &inputs)
}

/// The inner node above two children: `H(3, left, right)`.
pub fn node_hash(params: &PoseidonParams, left: FieldElement, right: FieldElement) -> (out:
    FieldElement)
    ensures
        out@ == node(params@, left@, right@),
        out.valid(),
{
    let inputs = vec![FieldElement::from_u64(DOMAIN_NODE), left, right];
    assert(values(inputs@) =~= seq![DOMAIN_NODE as nat, left@, right@]);
    poseidon_hash_native(params, &inputs)
}

/// The leaf that holds a commitment; the same function as [`leaf_hash`].
pub fn poseidon_hash_leaf(params: &PoseidonParams, leaf: FieldElement) -> (out: FieldElement)
    ensures
        out@ == self::leaf(params@, leaf@),
        out.valid(),
{
    leaf_hash(params, leaf)
}

/// The inner node above two children; the same function as [`node_hash`].
pub fn poseidon_hash_node(params: &PoseidonParams, left: FieldElement, right: FieldElement) -> (out:
    FieldElement)
    ensures
        out@ == node(params@, left@, right@),
        out.valid(),
{
    node_hash(params, left, right)
}

/// The leaf that binds a commitment to a domain and a context:
/// `H(domain_sep, ctx_hash, commitment)`.
pub fn poseidon_hash_leaf_v2(
    params: &PoseidonParams,
    domain_sep: FieldElement,
    ctx_hash: FieldElement,
    commitment: FieldElement,
) -> (out: FieldElement)
    ensures
        out@ == leaf_v2(params@, domain_sep@, ctx_hash@, commitment@),
        out.valid(),
{
    let inputs = vec![domain_sep, ctx_hash, commitment];
    assert(values(inputs@) =~= seq![domain_sep@, ctx_hash@, commitment@]);
    poseidon_hash_native(params, &inputs)
}

/// `H(1, id, r)`.
pub open spec fn commitment(params: PoseidonParamsView, id: nat, r: nat) -> nat {
    poseidon(params, seq![DOMAIN_COMMITMENT as nat, id, r])
}

/// `H(2, c, 0)`.
pub open spec fn leaf(params: PoseidonParamsView, c: nat) -> nat {
    poseidon(params, seq![DOMAIN_LEAF as nat, c, 0nat])
}

/// `H(domain_sep, ctx_hash, c)`.
pub open spec fn leaf_v2(params: PoseidonParamsView, domain_sep: nat, ctx_hash: nat, c: nat) -> nat {
    poseidon(params, seq![domain_sep, ctx_hash, c])
}

/// `H(3, left, right)`.
pub open spec fn node(params: PoseidonParamsView, left: nat, right: nat) -> nat {
    poseidon(params, seq![DOMAIN_NODE as nat, left, right])
}

/// Calls `find_poseidon_ark_and_mds` of ark-crypto-primitives for the scalar
/// field of BN254, with the field's own modulus bit size, and hands back the
/// round constants and the MDS matrix as canonical field elements. Trusted:
/// the result is a function of the arguments; there is one row of `rate + 1`
/// round constants per round, the MDS matrix is square with `rate + 1` rows,
/// and every entry is the canonical encoding of a number below the field
/// order. The arguments are held to the one point for which the search is
/// known to end.
#[verifier::external_body]
fn search_ark_and_mds(rate: usize, full_rounds: u64, partial_rounds: u64, skip_matrices: u64) -> (out:
    (Vec<Vec<FieldElement>>, Vec<Vec<FieldElement>>))
    requires
        rate == 3,
        full_rounds == 8,
        partial_rounds == 56,
        skip_matrices == 0,
    ensures
        (matrix_values(out.0@), matrix_values(out.1@)) == poseidon_ark_and_mds(
            rate as nat,
            full_rounds as nat,
            partial_rounds as nat,
            skip_matrices as nat,
        ),
        has_shape(out.0@, full_rounds + partial_rounds, rate + 1),
        has_shape(out.1@, rate + 1, rate + 1),
        all_valid(out.0@),
        all_valid(out.1@),
{
    let bits = Fr::MODULUS_BIT_SIZE as u64;
    let (ark, mds) = find_poseidon_ark_and_mds::<Fr>(bits, rate, full_rounds, partial_rounds, skip_matrices);
    let element = |x: Fr| {
        let mut bytes = [0u8; 32];
        bytes.copy_from_slice(&x.into_bigint().to_bytes_be());
        FieldElement { bytes }
    };
    let rows = |m: Vec<Vec<Fr>>| m.into_iter().map(|r| r.into_iter().map(element).collect()).collect();
    (rows(ark), rows(mds))
}

/// Builds a `PoseidonSponge` of ark-crypto-primitives from `params`, has it
/// absorb `inputs` in one batch and squeeze one field element, and hands back
/// that element's canonical big-endian bytes. Parameters and inputs reach
/// the sponge by their canonical encodings, which every element holds.
/// Trusted: the result is a function of the parameters and of the inputs,
/// and denotes a number below the field order.
#[verifier::external_body]
fn absorb_and_squeeze(params: &PoseidonParams, inputs: &Vec<FieldElement>) -> (out: [u8; 32])
    requires
        params.well_formed(),
    ensures
        be_value(out@) == poseidon(params@, values(inputs@)),
        be_value(out@) < modulus(),
{
    let element = |x: &FieldElement| Fr::from_be_bytes_mod_order(&x.bytes);
    let rows = |m: &[Vec<FieldElement>]| m.iter().map(|r| r.iter().map(element).collect()).collect();
    let (mds, ark) = (rows(&params.mds), rows(&params.ark));
    let config = PoseidonConfig::new(params.full_rounds, params.partial_rounds, params.alpha, mds, ark, params.rate, params.capacity);
    let mut sponge = PoseidonSponge::new(&config);
    sponge.absorb(&inputs.iter().map(element).collect::<Vec<Fr>>());
    let mut out = [0u8; 32];
    out.copy_from_slice(&sponge.squeeze_field_elements::<Fr>(1)[0].into_bigint().to_bytes_be());
    out
}

} // verus!
