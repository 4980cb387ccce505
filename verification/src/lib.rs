//! Midas: an in-memory tracked-product store with role-scoped access.
//!
//! The library resolves a submitted login to an actor with a role,
//! validates tracking candidates (supported retailer, matching product
//! URL domain, optional decimal target price), and keeps every accepted
//! product in an append-only store that each actor sees filtered by
//! ownership, with admins seeing everything.

pub mod identity;
pub mod price;
pub mod store;
pub mod text;
