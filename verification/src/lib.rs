//! Request-dispatch core for a code-generated HTTP/RPC service framework.
//!
//! The crate turns textual URI patterns into structured request
//! specifications, matches incoming requests against them with a defined
//! precedence, and selects the operation to dispatch to.  It also carries the
//! JSON string escaping routines and the protocol test helpers that the
//! framework ships with.

pub mod strutil;
pub mod request_spec;
pub mod path_matcher;
pub mod query;
pub mod pattern;
pub mod routing;
pub mod escape;
pub mod model;
pub mod handler;
pub mod error;
pub mod operation_handler;
pub mod method_router;
pub mod operation_registry;
pub mod protocol_helpers;
pub mod runtime;
