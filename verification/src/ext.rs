//! Extension points for address types that can be asked of an
//! interface.  The queries themselves go through the scalar control path
//! and are the implementor's.

use vstd::prelude::*;
use crate::error::ScalarError;

verus! {

/// An address type whose value can be read off a named interface.
pub trait IpAddrLinkExt: Sized {
    /// The address of the interface `dev`.
    fn from_interface(dev: &str) -> Result<Self, ScalarError>;
}

/// A hardware-address type whose value can be read off a named
/// interface.
pub trait MacAddrLinkExt: Sized {
    /// The hardware address of `interface`.
    fn from_interface(interface: &str) -> Result<Self, ScalarError>;
}

/// A hardware-address type that is made of six bytes and can be read off
/// a named interface.
pub trait MacAddrLinxExt: Sized {
    /// The hardware address of `interface`.
    fn from_interface(interface: &str) -> Result<Self, ScalarError>;
}

} // verus!
