//! Integer sizes.

use vstd::prelude::*;

verus! {

/// The size of an integer type.
#[derive(Clone, Copy, Debug, PartialEq, Eq, Structural)]
pub enum Size {
    /// 8 bits.
    S8,
    /// 16 bits.
    S16,
    /// 32 bits.
    S32,
    /// 64 bits.
    S64,
    /// Unbounded.
    Inf,
}

impl Size {
    /// The number of bytes that a value of this size takes, where it takes a fixed number.
    pub open spec fn byte_count(self) -> Option<u8> {
        match self {
            Size::S8 => Some(1),
            Size::S16 => Some(2),
            Size::S32 => Some(4),
            Size::S64 => Some(8),
            Size::Inf => None,
        }
    }

    /// The number of bytes that a value of this size takes, where it takes a fixed number.
    pub fn bytes(self) -> (r: Option<u8>)
        ensures
            r == self.byte_count(),
    {
        match self {
            Size::S8 => Some(1),
            Size::S16 => Some(2),
            Size::S32 => Some(4),
            Size::S64 => Some(8),
            Size::Inf => None,
        }
    }
}

} // verus!
