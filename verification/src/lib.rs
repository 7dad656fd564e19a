//! A concurrency-friendly unique-name registry.
//!
//! The core is [`registry::Registry`]: a set of name records, unique by the
//! `name` field, offering an atomic insert-if-absent operation and a
//! full-snapshot read. The router layer translates registry outcomes into
//! status codes and response bodies; transport glue (HTTP, serialization,
//! locking) lives outside this crate and calls in with plain strings.

pub mod registry;
pub mod router;
