//! Bearer-token acquisition for a cloud identity.
//!
//! The crate holds the credential lifecycle as verified, synchronous code:
//! which credential source is selected, what each source sends to obtain a
//! token, the signed assertion of a service account, what a reply means,
//! when a cached token may still be handed out, and how concurrent requests
//! for one scope set share a single refresh. Reading files and sending
//! requests are left to the caller, who reports their outcomes as plain
//! values.

pub mod cache;
pub mod credentials;
pub mod encoding;
pub mod error;
pub mod jwt;
pub mod manager;
pub mod resolver;
pub mod scope;
pub mod signer;
pub mod strategy;
pub mod token;
pub mod wire;

pub use error::Error;
pub use manager::AuthenticationManager;
pub use resolver::init;
pub use token::Token;
