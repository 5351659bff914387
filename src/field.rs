//! Field elements: the Pallas base field of `pasta_curves`, reached through
//! `halo2_proofs`. Arithmetic is delegated to that crate.
use halo2_proofs::pasta::Fp;
use vstd::prelude::*;

verus! {

#[verifier::external_type_specification]
#[verifier::external_body]
pub struct ExFp(Fp);

/// The field sum of two elements, as `Fp::add` computes it.
pub uninterp spec fn fp_add(a: Fp, b: Fp) -> Fp;

/// The field product of two elements, as `Fp::mul` computes it.
pub uninterp spec fn fp_mul(a: Fp, b: Fp) -> Fp;

/// The additive inverse of an element, as `Fp::neg` computes it.
pub uninterp spec fn fp_neg(a: Fp) -> Fp;

/// The element that `Fp::from(n)` yields for a `u64`.
pub uninterp spec fn fp_of_u64(n: u64) -> Fp;

/// The additive identity.
pub open spec fn fp_zero() -> Fp {
    fp_of_u64(0)
}

/// Relies on `Fp::from(u64)`: the element `n mod p`.
#[verifier::external_body]
pub(crate) fn fe_from_u64(n: u64) -> (r: Fp)
    ensures
        r == fp_of_u64(n),
{
    Fp::from(n)
}

/// Relies on `Fp::add`: the sum in the field.
#[verifier::external_body]
pub(crate) fn fe_add(a: &Fp, b: &Fp) -> (r: Fp)
    ensures
        r == fp_add(*a, *b),
{
    a.add(b)
}

/// Relies on `Fp::mul`: the product in the field.
#[verifier::external_body]
pub(crate) fn fe_mul(a: &Fp, b: &Fp) -> (r: Fp)
    ensures
        r == fp_mul(*a, *b),
{
    a.mul(b)
}

/// Relies on `Fp::neg`: the additive inverse.
#[verifier::external_body]
pub(crate) fn fe_neg(a: &Fp) -> (r: Fp)
    ensures
        r == fp_neg(*a),
{
    a.neg()
}

/// Relies on `Fp`'s `PartialEq`, which compares the reduced limbs, so two
/// elements compare equal exactly when they are the same element.
#[verifier::external_body]
pub(crate) fn fe_eq(a: &Fp, b: &Fp) -> (r: bool)
    ensures
        r == (*a == *b),
{
    *a == *b
}

} // verus!
