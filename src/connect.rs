//! The contract every connector meets before it is used.

use vstd::prelude::*;

verus! {

/// A connector that must establish its session before use. Connecting
/// consumes the value and hands back the connected one, so an unconnected
/// value cannot be used by mistake.
pub trait Client: Sized {
    type Error;

    fn connect(self) -> Result<Self, Self::Error>;
}

} // verus!
