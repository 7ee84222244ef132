//! The core of a protocol-aware httpbin test double: the request and response
//! model, path and query parsing, the endpoint behaviours (conditional
//! caching, authentication challenges, byte ranges, redirects, compression),
//! and the route table that guards each route by the protocol it requires.
//! Transport, TLS and waiting are left to the caller.

pub mod auth;
pub mod bridge;
pub mod caching;
pub mod compression;
pub mod content;
pub mod cookies;
pub mod delay;
pub mod echo;
pub mod json;
pub mod params;
pub mod redirect;
pub mod routing;
pub mod status;
pub mod streaming;
pub mod text;
pub mod types;
