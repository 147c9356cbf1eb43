//! The sealing device of the handler abstraction: implementing the handler
//! contract outside this crate requires naming a type only this crate can
//! produce.

use vstd::prelude::*;

verus! {

/// A trait only [`Hidden`] implements; naming it in an associated type seals
/// a trait against outside implementations.
pub trait HiddenTrait {

}

/// The only type that satisfies [`HiddenTrait`].
pub struct Hidden;

impl HiddenTrait for Hidden {

}

} // verus!
