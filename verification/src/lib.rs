//! Access-scope compilation for policy enforcement points, and the domain core of
//! the service-principal facade.
//!
//! - [`pep`] turns the answer of a policy decision point into an [`scope::AccessScope`],
//!   failing closed on everything it does not understand.
//! - [`principal`] holds the service-principal models, their wire shapes, the failure
//!   taxonomy and the sanitizer through which provider text has to pass.

pub mod constraints;
pub mod ids;
pub mod json;
pub mod models;
pub mod pep;
pub mod principal;
pub mod scope;
pub mod text;
