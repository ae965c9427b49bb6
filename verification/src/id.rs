//! Identifiers of resources.
//!
//! Every identifier is a key of a generational arena: a slot together with
//! the generation of its occupant, so that the identifier of a resource that
//! was removed never names the resource that took its place.

use atomic_arena::Key;
use vstd::prelude::*;

verus! {

#[verifier::external_type_specification]
#[verifier::external_body]
pub struct ExKey(Key);

/// `atomic_arena::Key`'s `==`, which the crate derives: it holds exactly when
/// both keys name the same slot in the same generation, that is when they are
/// the same key.
#[verifier::external_body]
pub(crate) fn same_key(a: &Key, b: &Key) -> (same: bool)
    ensures
        same == (*a == *b),
{
    a == b
}

} // verus!
