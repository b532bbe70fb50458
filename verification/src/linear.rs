//! The two linear layers of the permutation.
//!
//! Both are computed by the Plonky3 implementation for Baby Bear at width
//! sixteen. Their matrices are not restated here: each layer is a fixed
//! function from sixteen lanes to sixteen lanes, and the rest of the crate
//! is proved for whatever that function is.

use crate::constants::WIDTH;
use crate::field::all_reduced;
use p3_baby_bear::BabyBear;
use p3_baby_bear::DiffusionMatrixBabyBear;
use p3_field::AbstractField;
use p3_field::PrimeField32;
use p3_poseidon2::Poseidon2ExternalMatrixGeneral;
use p3_symmetric::Permutation;
use vstd::prelude::*;

verus! {

/// What the external matrix of Plonky3 makes of the lanes `input`.
pub uninterp spec fn external_matrix_product(input: Seq<u32>) -> Seq<u32>;

/// What the internal (diffusion) matrix of Plonky3 makes of the lanes
/// `input`.
pub uninterp spec fn internal_matrix_product(input: Seq<u32>) -> Seq<u32>;

/// Applies `Poseidon2ExternalMatrixGeneral::permute_mut` to the field
/// elements that `input` stands for. Trusted: the result is a function of
/// the sixteen lanes alone, and each lane read back with `as_canonical_u32`
/// is below the order.
#[verifier::external_body]
fn apply_external_matrix(input: &[u32; WIDTH]) -> (output: [u32; WIDTH])
    ensures
        output@ == external_matrix_product(input@),
        all_reduced(output@),
{
    let mut state = input.map(BabyBear::from_wrapped_u32);
    Poseidon2ExternalMatrixGeneral.permute_mut(&mut state);
    state.map(|x| x.as_canonical_u32())
}

/// Applies `DiffusionMatrixBabyBear::permute_mut` to the field elements that
/// `input` stands for. Trusted: the result is a function of the sixteen
/// lanes alone, and each lane read back with `as_canonical_u32` is below the
/// order.
#[verifier::external_body]
fn apply_internal_matrix(input: &[u32; WIDTH]) -> (output: [u32; WIDTH])
    ensures
        output@ == internal_matrix_product(input@),
        all_reduced(output@),
{
    let mut state = input.map(BabyBear::from_wrapped_u32);
    DiffusionMatrixBabyBear.permute_mut(&mut state);
    state.map(|x| x.as_canonical_u32())
}

/// The external linear layer as a map on states: the sixteen lanes of the
/// external matrix product.
pub open spec fn external_linear_layer_spec(state: Seq<u32>) -> Seq<u32> {
    Seq::new(WIDTH as nat, |j: int| external_matrix_product(state)[j])
}

/// The internal linear layer as a map on states: the sixteen lanes of the
/// internal matrix product.
pub open spec fn internal_linear_layer_spec(state: Seq<u32>) -> Seq<u32> {
    Seq::new(WIDTH as nat, |j: int| internal_matrix_product(state)[j])
}

/// Mixes all lanes of `input` through the external linear layer.
pub fn external_linear_layer(input: &[u32; WIDTH]) -> (output: [u32; WIDTH])
    ensures
        output@ == external_linear_layer_spec(input@),
        all_reduced(output@),
{
    let output = apply_external_matrix(input);
    assert(output@ =~= external_linear_layer_spec(input@));
    output
}

/// Mixes all lanes of `input` through the internal linear layer.
pub fn internal_linear_layer(input: &[u32; WIDTH]) -> (output: [u32; WIDTH])
    ensures
        output@ == internal_linear_layer_spec(input@),
        all_reduced(output@),
{
    let output = apply_internal_matrix(input);
    assert(output@ =~= internal_linear_layer_spec(input@));
    output
}

} // verus!
