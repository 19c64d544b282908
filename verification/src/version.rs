//! Versions of hosts.

use vstd::prelude::*;

verus! {

/// The version that a host reports.
#[derive(Debug, Clone, Copy, PartialEq, Eq, Structural)]
pub struct ServerVersion {
    pub major: i32,
    pub minor: i32,
    pub patch: i32,
    pub mini_patch: i32,
}

impl ServerVersion {
    pub fn new(major: i32, minor: i32, patch: i32, mini_patch: i32) -> (version: ServerVersion)
        ensures
            version == (ServerVersion { major, minor, patch, mini_patch }),
    {
        ServerVersion { major, minor, patch, mini_patch }
    }

    /// Whether a host of this version is Sunshine or derived from it: such
    /// hosts report a negative last part.
    pub open spec fn sunshine_like(self) -> bool {
        self.mini_patch < 0
    }

    /// Whether this version is the same as or later than another.
    pub open spec fn not_before(self, other: ServerVersion) -> bool {
        ||| self.major > other.major
        ||| self.major == other.major && self.minor > other.minor
        ||| self.major == other.major && self.minor == other.minor && self.patch > other.patch
        ||| self.major == other.major && self.minor == other.minor && self.patch == other.patch
            && self.mini_patch >= other.mini_patch
    }

    pub fn is_sunshine_like(&self) -> (sunshine: bool)
        ensures
            sunshine == self.sunshine_like(),
    {
        self.mini_patch < 0
    }

    /// Whether this version is the same as or later than another.
    pub fn is_at_least(&self, other: ServerVersion) -> (at_least: bool)
        ensures
            at_least == self.not_before(other),
    {
        if self.major != other.major {
            self.major > other.major
        } else if self.minor != other.minor {
            self.minor > other.minor
        } else if self.patch != other.patch {
            self.patch > other.patch
        } else {
            self.mini_patch >= other.mini_patch
        }
    }
}

} // verus!
