//! The operation handler adapter: one user-supplied operation function,
//! wrapped so that heterogeneous operations can share one route table.
//!
//! The wrapper holds no per-call state of its own; any state the operation
//! needs lives in the handler's own captured environment.  Invoking the
//! handler — the per-request suspension point — is the surrounding
//! application's business; the routing layer only selects it.

use vstd::prelude::*;

verus! {

/// Holds a handler: a function, provided by the user, that implements one
/// operation.
#[derive(Clone)]
pub struct OperationHandler<H> {
    pub handler: H,
}

/// Construct an [`OperationHandler`] out of a function implementing the
/// operation.
pub fn operation<H>(handler: H) -> (r: OperationHandler<H>)
    ensures
        r.handler == handler,
{
    OperationHandler { handler }
}

} // verus!
