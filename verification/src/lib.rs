//! A client core for the Gemini protocol.
//!
//! The library holds what a Gemini client decides: how a URL is
//! normalised ([`address`]), what a raw response means ([`response`],
//! [`status`]), whether a peer's certificate is trusted ([`tofu`]), and how
//! a fetch moves from connecting to the delivered response, through
//! redirects if need be ([`fetch`]). Beside it stands what a browser-facing
//! proxy needs to show the result ([`gemtext`], [`page`], [`layout`]).
//!
//! Nothing here touches the network or the disk: the caller connects,
//! reads and writes, and hands plain values in. Every function states its
//! result as a contract over sequences, maps and integers, and the
//! contracts are proved.

pub mod address;
pub mod bytes;
pub mod error;
pub mod fetch;
pub mod gemtext;
pub mod layout;
pub mod page;
pub mod response;
pub mod status;
pub mod text;
pub mod tofu;
