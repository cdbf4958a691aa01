//! A client-side model of the kernel's route-configuration protocol:
//! attribute lists, link and namespace messages, the transaction rules of
//! the transport, the link operations built on it, and the one-line
//! summary of a link.  The library holds plain data and decides; it opens
//! no socket and no file.  A caller sends what the library frames and
//! hands back what the kernel answered.

pub mod attr;
pub mod bytes;
pub mod consts;
pub mod datagram;
pub mod error;
pub mod ext;
pub mod frame;
pub mod laws;
pub mod links;
pub mod linktool;
pub mod names;
pub mod netlink;
pub mod nl;
pub mod parse;
pub mod rtnetlink;
pub mod scalar;
pub mod show;
pub mod text;
pub mod wire;
