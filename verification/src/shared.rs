//! Values with several owners.

use std::sync::Arc;

use vstd::prelude::*;

verus! {

/// Calls `Arc::clone`: another owner of the same value.
#[verifier::external_body]
pub(crate) fn share<T>(value: &Arc<T>) -> (owner: Arc<T>)
    ensures
        owner == *value,
{
    Arc::clone(value)
}

} // verus!
