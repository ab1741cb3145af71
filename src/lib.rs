//! Decoding and encoding of link, network and transport headers against raw
//! byte buffers.
//!
//! - `link`, `ipv4`, `ipv6`, `tcp`, `udp`: owned headers that decode from and
//!   encode to their exact wire bytes, zero-copy views for IPv6 and TCP that
//!   validate length and discriminant once, and the laws relating decoding
//!   and encoding (round trip, truncation, rejection, field independence).
//! - `checksum`: the internet checksum and the transport pseudo-headers.
//! - `layers`: the walk from a frame's first header to its transport header,
//!   keeping what was decoded when it stops.
//! - `error`: the error values shared by all of them.
//! - `be`: big-endian byte reading and writing, and bit helpers.
pub mod error;
pub mod be;
pub mod checksum;
pub mod link;
pub mod ipv4;
pub mod ipv6;
pub mod tcp;
pub mod udp;
pub mod layers;
