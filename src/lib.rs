//! Resolves a playable stream for a movie or TV episode: identifier tokens
//! that carry media identity between stages, the catalog resolver, server
//! enumeration, and the provider request-signing scheme with its
//! OpenSSL-compatible "Salted__" encryption.
use vstd::prelude::*;

pub mod catalog;
pub mod crypto;
pub mod dom;
pub mod ident;
pub mod json;
pub mod percent;
pub mod servers;
pub mod stream;
pub mod text;

verus! {

} // verus!
