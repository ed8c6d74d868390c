//! The protocol version triple and its two wire encodings.
//!
//! The legacy encoding packs major/minor/patch into a `u32` as
//! 16/8/8 bits, saturating each field; the newer encoding packs them
//! into a `u64` as three 16-bit fields above a reserved low word.
//! Decoding masks each field, so oversized components do not round-trip
//! through the legacy form.

use vstd::prelude::*;

verus! {

/// A protocol version triple.
#[derive(Debug, Clone, Copy, PartialEq, Eq, Structural, Hash)]
pub struct ProtocolVersion {
    /// The major component.
    pub major: u64,
    /// The minor component.
    pub minor: u64,
    /// The patch component.
    pub patch: u64,
}

/// `v`, but at most `cap`.
pub open spec fn spec_capped(v: u64, cap: u64) -> u64 {
    if v > cap {
        cap
    } else {
        v
    }
}

impl ProtocolVersion {
    /// Decode the legacy 32-bit form: 8-bit fields for major, minor and
    /// patch; higher bits are ignored.
    pub fn from_u32(version: u32) -> (r: Self)
        ensures
            r.major == (version >> 16) & 0xFF,
            r.minor == (version >> 8) & 0xFF,
            r.patch == version & 0xFF,
    {
        ProtocolVersion {
            major: ((version >> 16) & 0xFF) as u64,
            minor: ((version >> 8) & 0xFF) as u64,
            patch: (version & 0xFF) as u64,
        }
    }

    /// Encode the legacy 32-bit form, saturating major to 16 bits and
    /// minor and patch to 8 bits.
    pub fn to_u32(self) -> (r: u32)
        ensures
            r == ((spec_capped(self.major, 0xFFFF) as u32) << 16) | (
            (spec_capped(self.minor, 0xFF) as u32) << 8) | (spec_capped(self.patch, 0xFF) as u32),
    {
        let major: u32 = if self.major > 0xFFFF {
            0xFFFF
        } else {
            self.major as u32
        };
        let minor: u32 = if self.minor > 0xFF {
            0xFF
        } else {
            self.minor as u32
        };
        let patch: u32 = if self.patch > 0xFF {
            0xFF
        } else {
            self.patch as u32
        };
        (major << 16) | (minor << 8) | patch
    }

    /// Decode the 64-bit form: 16-bit fields for major, minor and patch
    /// above a reserved low word.
    pub fn from_u64(version: u64) -> (r: Self)
        ensures
            r.major == (version >> 48) & 0xFFFF,
            r.minor == (version >> 32) & 0xFFFF,
            r.patch == (version >> 16) & 0xFFFF,
    {
        ProtocolVersion {
            major: (version >> 48) & 0xFFFF,
            minor: (version >> 32) & 0xFFFF,
            patch: (version >> 16) & 0xFFFF,
        }
    }

    /// Encode the 64-bit form.  A component beyond 16 bits spills into
    /// the neighbouring field, as the wire format has it.
    pub fn to_u64(self) -> (r: u64)
        ensures
            r == (self.major << 48) | (self.minor << 32) | (self.patch << 16),
    {
        (self.major << 48) | (self.minor << 32) | (self.patch << 16)
    }
}

/// For in-range components the 64-bit encoding round-trips exactly.
pub proof fn lemma_u64_roundtrip(v: ProtocolVersion)
    requires
        v.major <= 0xFFFF,
        v.minor <= 0xFFFF,
        v.patch <= 0xFFFF,
    ensures
        ((((v.major << 48) | (v.minor << 32) | (v.patch << 16)) >> 48) & 0xFFFF) == v.major,
        ((((v.major << 48) | (v.minor << 32) | (v.patch << 16)) >> 32) & 0xFFFF) == v.minor,
        ((((v.major << 48) | (v.minor << 32) | (v.patch << 16)) >> 16) & 0xFFFF) == v.patch,
{
    let a = v.major;
    let b = v.minor;
    let c = v.patch;
    assert(((((a << 48) | (b << 32) | (c << 16)) >> 48) & 0xFFFF) == a && ((((a << 48) | (b << 32)
        | (c << 16)) >> 32) & 0xFFFF) == b && ((((a << 48) | (b << 32) | (c << 16)) >> 16) & 0xFFFF)
        == c) by (bit_vector)
        requires
            a <= 0xFFFFu64 && b <= 0xFFFFu64 && c <= 0xFFFFu64,
    ;
}

} // verus!
