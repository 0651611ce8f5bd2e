//! Protocol versions and the version gate.
//!
//! NatNet grew fields across releases without a self-describing schema,
//! so every decoder consults the caller-supplied protocol version to
//! decide which optional fields are present and in what width. The
//! thresholds live here, in one table, so gating can be checked
//! independently of byte layout.

use vstd::prelude::*;

verus! {

/// A three-part protocol version ordered lexicographically, as in
/// `major.minor.patch` version strings.
#[derive(Clone, Copy, Debug, PartialEq, Eq, Structural)]
pub struct ProtocolVersion {
    pub major: u64,
    pub minor: u64,
    pub patch: u64,
}

impl ProtocolVersion {
    /// Lexicographic order against a fixed threshold.
    pub open spec fn spec_at_least(self, major: u64, minor: u64, patch: u64) -> bool {
        self.major > major || (self.major == major && (self.minor > minor || (self.minor
            == minor && self.patch >= patch)))
    }

    pub fn new(major: u64, minor: u64, patch: u64) -> (v: ProtocolVersion)
        ensures
            v == (ProtocolVersion { major, minor, patch }),
    {
        ProtocolVersion { major, minor, patch }
    }

    /// Whether this version is at least `major.minor.patch`.
    pub fn at_least(&self, major: u64, minor: u64, patch: u64) -> (r: bool)
        ensures
            r == self.spec_at_least(major, minor, patch),
    {
        self.major > major || (self.major == major && (self.minor > minor || (self.minor
            == minor && self.patch >= patch)))
    }
}

/// The version gate: one fixed threshold table deciding the presence
/// and width of every version-dependent field.
///
/// The per-entity optional boolean bitfields appeared in 2.6.0.
pub open spec fn spec_has_optional_flags(ver: ProtocolVersion) -> bool {
    ver.spec_at_least(2, 6, 0)
}

/// The frame timestamp is a native 64-bit value from 2.7.0 on.
pub open spec fn spec_timestamp_is_double(ver: ProtocolVersion) -> bool {
    ver.spec_at_least(2, 7, 0)
}

/// For 2.6.x only, the frame timestamp is a 32-bit value.
pub open spec fn spec_timestamp_is_single(ver: ProtocolVersion) -> bool {
    ver.spec_at_least(2, 6, 0) && !ver.spec_at_least(2, 7, 0)
}

/// Force-plate data appeared in 2.9.0.
pub open spec fn spec_has_force_plates(ver: ProtocolVersion) -> bool {
    ver.spec_at_least(2, 9, 0)
}

pub fn has_optional_flags(ver: &ProtocolVersion) -> (r: bool)
    ensures
        r == spec_has_optional_flags(*ver),
{
    ver.at_least(2, 6, 0)
}

pub fn timestamp_is_double(ver: &ProtocolVersion) -> (r: bool)
    ensures
        r == spec_timestamp_is_double(*ver),
{
    ver.at_least(2, 7, 0)
}

pub fn timestamp_is_single(ver: &ProtocolVersion) -> (r: bool)
    ensures
        r == spec_timestamp_is_single(*ver),
{
    ver.at_least(2, 6, 0) && !ver.at_least(2, 7, 0)
}

pub fn has_force_plates(ver: &ProtocolVersion) -> (r: bool)
    ensures
        r == spec_has_force_plates(*ver),
{
    ver.at_least(2, 9, 0)
}

} // verus!
