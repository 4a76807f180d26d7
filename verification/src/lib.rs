//! A self-describing binary codec for structured byte payloads.
//!
//! A `Template` describes how exactly one value — a [`nest::Nest`], either a
//! byte leaf or an ordered sequence of nests — is laid out on the wire. Each
//! template wraps one encoder variant: `Fixed` (exact length), `Dynamic`
//! (little-endian length prefix) or `Dlist` (little-endian count prefix over
//! an inner template). A template can also export its own structural
//! description as schema bytes and be reconstructed from them.

pub mod encoder;
pub mod encoders;
pub mod error;
pub mod model;
pub mod nest;
pub mod template;
pub mod template_ids;
pub mod wire;
