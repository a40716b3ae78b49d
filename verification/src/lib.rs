//! The core of a mail server, verified: the key space and its byte order,
//! the cell and row model, the shapes of query results, lookup stores and
//! the handles to backends, the TTL lookup cache of the directory, and the
//! decisions of authentication, outbound delivery and TLS set-up.
//!
//! What reaches outside this crate does so through a few functions whose
//! contracts are taken on trust; each says which function it stands for.

pub mod assoc;
pub mod auth;
pub mod blob;
pub mod bytes;
pub mod cache;
pub mod clock;
pub mod error;
pub mod key;
pub mod lookup;
pub mod lru;
pub mod net;
pub mod query;
pub mod smtp;
pub mod store;
pub mod text;
pub mod tls;
pub mod value;
