//! What the library takes from `erg_common` and `erg_parser`.
//!
//! The syntax that lowering only carries along (parameter lists, written types and bounds,
//! decorators, and forms that have no lowering), and the types and bounds that only inference
//! looks into, are values of those crates. Of these nothing is known here but that they are kept
//! as they are, and whether a set of bounds is empty.
use vstd::prelude::*;

verus! {

#[verifier::external_type_specification]
#[verifier::external_body]
pub struct ExParams(erg_parser::ast::Params);

#[verifier::external_type_specification]
#[verifier::external_body]
pub struct ExTypeSpec(erg_parser::ast::TypeSpec);

#[verifier::external_type_specification]
#[verifier::external_body]
pub struct ExTypeBoundSpecs(erg_parser::ast::TypeBoundSpecs);

#[verifier::external_type_specification]
#[verifier::external_body]
pub struct ExDecorator(erg_parser::ast::Decorator);

#[verifier::external_type_specification]
#[verifier::external_body]
pub struct ExDict(erg_parser::ast::Dict);

#[verifier::external_type_specification]
#[verifier::external_body]
pub struct ExSubscript(erg_parser::ast::Subscript);

#[verifier::external_type_specification]
#[verifier::external_body]
pub struct ExVarArrayPattern(erg_parser::ast::VarArrayPattern);

#[verifier::external_type_specification]
#[verifier::external_body]
pub struct ExVarTuplePattern(erg_parser::ast::VarTuplePattern);

#[verifier::external_type_specification]
#[verifier::external_body]
pub struct ExVarRecordPattern(erg_parser::ast::VarRecordPattern);

#[verifier::external_type_specification]
#[verifier::external_body]
pub struct ExType(erg_common::ty::Type);

#[verifier::external_type_specification]
#[verifier::external_body]
pub struct ExTyBound(erg_common::ty::TyBound);

#[verifier::external_type_specification]
#[verifier::external_body]
#[verifier::reject_recursive_types(T)]
pub struct ExSet<T>(erg_common::set::Set<T>);

/// The decorators of a subroutine.
pub type Decorators = erg_common::set::Set<erg_parser::ast::Decorator>;

/// The bounds on type variables that a type stands under.
pub type TyBounds = erg_common::set::Set<erg_common::ty::TyBound>;

/// The bounds that a set of bounds holds.
pub uninterp spec fn bounds_in(
    bounds: erg_common::set::Set<erg_common::ty::TyBound>,
) -> Set<erg_common::ty::TyBound>;

/// Calls `erg_common::set::Set::is_empty`, which says whether the set holds nothing.
#[verifier::external_body]
pub(crate) fn no_bounds(bounds: &erg_common::set::Set<erg_common::ty::TyBound>) -> (b: bool)
    ensures
        b == (bounds_in(*bounds) == Set::<erg_common::ty::TyBound>::empty()),
{
    bounds.is_empty()
}

/// The hash that `erg_common::get_hash` gives for the lambda signature made of these parts.
///
/// The hasher behind it works on machine words, so the number depends on their width and byte
/// order as well as on the signature: nothing is claimed of it.
#[verifier::external_body]
fn signature_hash(
    params: &erg_parser::ast::Params,
    return_t_spec: &Option<erg_parser::ast::TypeSpec>,
    bounds: &erg_parser::ast::TypeBoundSpecs,
) -> (hash: usize) {
    let sig = erg_parser::ast::LambdaSignature::new(
        params.clone(),
        return_t_spec.clone(),
        bounds.clone(),
    );
    erg_common::get_hash(&sig)
}

/// Whether a number is one that hashing the lambda signature made of these parts gives.
pub closed spec fn is_signature_hash(
    params: erg_parser::ast::Params,
    return_t_spec: Option<erg_parser::ast::TypeSpec>,
    bounds: erg_parser::ast::TypeBoundSpecs,
    hash: usize,
) -> bool {
    call_ensures(signature_hash, (&params, &return_t_spec, &bounds), hash)
}

/// Hashes the lambda signature made of these parts.
pub(crate) fn hash_signature(
    params: &erg_parser::ast::Params,
    return_t_spec: &Option<erg_parser::ast::TypeSpec>,
    bounds: &erg_parser::ast::TypeBoundSpecs,
) -> (hash: usize)
    ensures
        is_signature_hash(*params, *return_t_spec, *bounds, hash),
{
    signature_hash(params, return_t_spec, bounds)
}

} // verus!
