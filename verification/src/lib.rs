//! Verified core of a small account service: password hashing, signed
//! time-bounded tokens, a revocable session store, credential storage,
//! sign-in/session orchestration, and the middleware protecting routes.

pub mod config;
pub mod credential_store;
pub mod hashing;
pub mod middleware;
pub mod numeric;
pub mod primitives;
pub mod requests_interfaces;
pub mod service;
pub mod session_store;
pub mod strings;
pub mod token;
pub mod users;
