//! The ledger addresses that the components carry, declared from scrypto.

use vstd::prelude::*;

verus! {

/// scrypto's `ResourceAddress`, carried as an opaque value.
#[verifier::external_type_specification]
#[verifier::external_body]
pub struct ExResourceAddress(scrypto::prelude::ResourceAddress);

/// scrypto's `ComponentAddress`, carried as an opaque value.
#[verifier::external_type_specification]
#[verifier::external_body]
pub struct ExComponentAddress(scrypto::prelude::ComponentAddress);

/// Compares two resource addresses with scrypto's `PartialEq` for
/// `ResourceAddress`, which is derived over its node id bytes: the result is
/// true exactly when the two addresses are the same value.
#[verifier::external_body]
pub fn same_resource(
    a: &scrypto::prelude::ResourceAddress,
    b: &scrypto::prelude::ResourceAddress,
) -> (r: bool)
    ensures
        r == (*a == *b),
{
    a == b
}

} // verus!
