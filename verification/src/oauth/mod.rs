//! Authorizing at protected remote servers: finding the authorization server of an
//! endpoint, asking it for a token, and keeping that token usable.
//!
//! Every request for a token names the resource that the token is for, and every
//! authorization is bound to a random state and a challenge.

pub mod challenge;
pub mod discovery;
pub mod endpoint;
pub mod pkce;
pub mod scope;
pub mod store;
pub mod token;
