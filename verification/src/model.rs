//! The input, output and error types of the service's two operations, plus
//! the wrappers that carry them across the operation boundary.

use vstd::prelude::*;

verus! {

/// The input of the health check operation; it has no fields.
pub struct HealthcheckInput;

/// The output of the health check operation; it has no fields.
pub struct HealthcheckOutput;

/// The input of the health check operation, as the routing layer carries it.
pub struct HealthcheckOperationInput(pub HealthcheckInput);

/// The output of the health check operation, as the routing layer carries it.
pub struct HealthcheckOperationOutput(pub HealthcheckOutput);

/// The input of the service registration operation.
pub struct RegisterServiceInput;

/// The output of the service registration operation.
pub struct RegisterServiceOutput;

/// The declared error of the service registration operation.
pub struct RegisterServiceError;

/// The input of the service registration operation, as the routing layer
/// carries it.
pub struct RegisterServiceOperationInput(pub RegisterServiceInput);

/// The output of the service registration operation, as the routing layer
/// carries it.
pub struct RegisterServiceOperationOutput(pub RegisterServiceOutput);

impl From<HealthcheckOperationInput> for HealthcheckInput {
    fn from(v: HealthcheckOperationInput) -> (r: HealthcheckInput) {
        v.0
    }
}

impl vstd::std_specs::convert::FromSpecImpl<HealthcheckOperationInput> for HealthcheckInput {
    open spec fn obeys_from_spec() -> bool {
        true
    }

    open spec fn from_spec(v: HealthcheckOperationInput) -> HealthcheckInput {
        v.0
    }
}

} // verus!
