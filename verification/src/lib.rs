//! Primitives of an OAuth2 authorization server's grant-issuance engine.
//!
//! Three independent capabilities cooperate: a [`Registrar`] validates client
//! identity, redirect URIs and requested scopes; an [`Authorizer`] turns a
//! grant into a single-use authorization code and back; an [`Issuer`] turns a
//! grant into access and refresh tokens and recovers the grant from them.
//! Each capability is a trait whose contract is stated over a mathematical
//! model of its store, and each comes with an in-memory implementation that
//! is proved against that contract. The laws that the capabilities obey are
//! proved of the models, next to them.
//!
//! The operations are synchronous and take the store by exclusive reference
//! where they change it: two callers cannot be in one store at once, and an
//! operation either takes effect as a whole or fails and changes nothing.

pub mod authorizer;
pub mod client;
pub mod generator;
pub mod grant;
pub mod issuer;
pub mod registrar;
pub mod scope;
pub mod string_map;
pub mod text;
pub mod uri;

pub use authorizer::Authorizer;
pub use issuer::Issuer;
pub use registrar::Registrar;
