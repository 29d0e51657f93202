//! A persistence-and-authorization layer for contributors and the quotes
//! they submit: create/read/update/delete operations with field validation,
//! ownership-based authorization, and derived read queries (recent-N,
//! category filter) over an ordered key-value store with monotonically
//! increasing identifiers.
//!
//! - [`types`]: the entities, payloads, caller identity and typed errors
//! - [`store`]: the ordered key-value store both collections live in
//! - [`validate`]: pure field constraints checked before any mutation
//! - [`encoding`]: the bounded-size cap on a record's serialized form
//! - [`registry`]: the request handlers over the whole state
//! - [`queries`]: recent-N and category filter over the quote collection
//! - [`laws`]: properties that span several operations, stated and proved

pub mod encoding;
pub mod laws;
pub mod queries;
pub mod registry;
pub mod store;
pub mod types;
pub mod validate;
