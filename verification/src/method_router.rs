//! A single-operation router cell: one handler, wrapped for registration.

use vstd::prelude::*;

verus! {

/// Holds the handler of one operation for registration into a route table.
#[derive(Clone)]
pub struct MethodRouter<H> {
    pub handler: H,
}

/// Construct a [`MethodRouter`] out of a function implementing the
/// operation.
pub fn operation<H>(handler: H) -> (r: MethodRouter<H>)
    ensures
        r.handler == handler,
{
    MethodRouter { handler }
}

} // verus!
