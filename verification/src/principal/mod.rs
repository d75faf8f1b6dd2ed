//! The domain core of the service-principal facade.
//!
//! - [`models`] holds what a provider of service principals takes and returns.
//! - [`failure`] is the failure taxonomy of providers.
//! - [`sanitize`] cleans provider text before it can reach the wire.
//! - [`domain`] is the error model of the facade.
//! - [`dto`] holds the wire shapes.

pub mod domain;
pub mod dto;
pub mod failure;
pub mod models;
pub mod sanitize;
