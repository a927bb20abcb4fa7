//! Resolution of `web+<scheme>:` URIs to the HTTPS fallback address that a
//! web-based protocol handler serves, and the decisions of the entry point
//! that hands such a URI to the platform launcher.

pub mod scheme;
pub mod encode;
pub mod fallback;
pub mod dispatch;
pub mod laws;
