//! A load-time registration bridge between a native computation runtime and a
//! dynamically typed embedding host.
//!
//! At import time the host hands the bridge a mutable, name-addressable module
//! container. The bridge delegates to the runtime provider's registration
//! entry point, passing the container through unchanged, and propagates the
//! provider's success or failure back to the host verbatim. The bridge itself
//! holds no state, writes nothing to the container, and introduces no error
//! states of its own.
//!
//! The container and the diagnostic payload are modelled here as concrete
//! types ([`container::ModuleContainer`], [`diagnostic::Diagnostic`]); the
//! provider is any callable that takes the container and returns it together
//! with a registration outcome. Note that a provider is not required to fail
//! atomically: on failure the container may be left partially populated, and
//! the bridge performs no rollback.

pub mod bridge;
pub mod container;
pub mod diagnostic;
