//! Format-specific size keys.
//!
//! Not every pixel dimension is encodable in every icon container: the
//! `ico` format stores a size in a single byte, so only sizes below 256
//! have a key; the `icns` and favicon containers accept the whole
//! unsigned range.  A key is constructed from a raw size through
//! `from_size` and remembers that size; the encoding itself stays
//! private.

use vstd::prelude::*;

use crate::parse::token::Cmd;

verus! {

/// Whether `size` has a key encoding in the container selected by `fmt`.
pub open spec fn size_valid(fmt: Cmd, size: u32) -> bool {
    match fmt {
        Cmd::Ico => size < 256,
        Cmd::Icns => true,
        Cmd::Favicon => true,
    }
}

/// Decides [`size_valid`]: the per-format size rule as one function
/// table keyed by the command word.
pub fn check_size(fmt: Cmd, size: u32) -> (b: bool)
    ensures
        b == size_valid(fmt, size),
{
    match fmt {
        Cmd::Ico => size < 256,
        Cmd::Icns => true,
        Cmd::Favicon => true,
    }
}

/// A size key for the `ico` container, stored in its one-byte encoding.
#[derive(Copy, Clone, Debug, PartialEq, Eq)]
pub struct IcoKey {
    size: u8,
}

impl IcoKey {
    /// The pixel dimension this key encodes.
    pub closed spec fn as_size(self) -> u32 {
        self.size as u32
    }

    /// Builds the key for `size`, exactly when the container supports it.
    pub fn from_size(size: u32) -> (r: Option<IcoKey>)
        ensures
            r is Some <==> size_valid(Cmd::Ico, size),
            r matches Some(k) ==> k.as_size() == size,
    {
        if size < 256 {
            Some(IcoKey { size: size as u8 })
        } else {
            None
        }
    }

    /// The pixel dimension this key encodes.
    pub fn size(&self) -> (r: u32)
        ensures
            r == self.as_size(),
    {
        self.size as u32
    }
}

/// A size key for the `icns` container.
#[derive(Copy, Clone, Debug, PartialEq, Eq)]
pub struct IcnsKey {
    size: u32,
}

impl IcnsKey {
    /// The pixel dimension this key encodes.
    pub closed spec fn as_size(self) -> u32 {
        self.size
    }

    /// Builds the key for `size`; every size is supported.
    pub fn from_size(size: u32) -> (r: Option<IcnsKey>)
        ensures
            r is Some <==> size_valid(Cmd::Icns, size),
            r matches Some(k) ==> k.as_size() == size,
    {
        Some(IcnsKey { size })
    }

    /// The pixel dimension this key encodes.
    pub fn size(&self) -> (r: u32)
        ensures
            r == self.as_size(),
    {
        self.size
    }
}

/// A size key for the favicon container.
#[derive(Copy, Clone, Debug, PartialEq, Eq)]
pub struct FaviconKey {
    size: u32,
}

impl FaviconKey {
    /// The pixel dimension this key encodes.
    pub closed spec fn as_size(self) -> u32 {
        self.size
    }

    /// Builds the key for `size`; every size is supported.
    pub fn from_size(size: u32) -> (r: Option<FaviconKey>)
        ensures
            r is Some <==> size_valid(Cmd::Favicon, size),
            r matches Some(k) ==> k.as_size() == size,
    {
        Some(FaviconKey { size })
    }

    /// The pixel dimension this key encodes.
    pub fn size(&self) -> (r: u32)
        ensures
            r == self.as_size(),
    {
        self.size
    }
}

} // verus!
