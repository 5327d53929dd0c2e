//! Fresh identifiers for buffers and windows.
use vstd::prelude::*;

verus! {

/// A fresh random identifier (`uuid::Uuid::new_v4`, as a `u128`). Nothing is
/// promised of its value: it is random.
#[verifier::external_body]
pub(crate) fn new_id() -> u128 {
    uuid::Uuid::new_v4().as_u128()
}

} // verus!
