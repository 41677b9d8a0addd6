//! The platforms that a native binary can be built for.

use vstd::prelude::*;
use crate::text::str_eq;

verus! {

/// A runtime identifier of the managed platform; roughly a target triple.
#[derive(Debug, Clone, Copy, PartialEq, Eq, Structural)]
pub enum NativePlatform {
    WinX64,
    LinuxX64,
    LinuxMuslX64,
    OsxX64,
}

pub open spec fn rid_of(p: NativePlatform) -> Seq<char> {
    match p {
        NativePlatform::WinX64 => "win-x64"@,
        NativePlatform::LinuxX64 => "linux-x64"@,
        NativePlatform::LinuxMuslX64 => "linux-musl-x64"@,
        NativePlatform::OsxX64 => "osx-x64"@,
    }
}

impl NativePlatform {
    /// The runtime identifier that the managed toolchain understands.
    pub fn to_dotnet_rid_string(&self) -> (r: &'static str)
        ensures
            r@ == rid_of(*self),
    {
        match self {
            NativePlatform::WinX64 => "win-x64",
            NativePlatform::LinuxX64 => "linux-x64",
            NativePlatform::LinuxMuslX64 => "linux-musl-x64",
            NativePlatform::OsxX64 => "osx-x64",
        }
    }

    pub fn host_platform() -> (r: NativePlatform)
        ensures
            r == NativePlatform::LinuxX64,
    {
        NativePlatform::LinuxX64
    }

    /// The platform of a runtime identifier.
    pub fn from_rid(s: &str) -> (r: Result<NativePlatform, &'static str>)
        ensures
            match r {
                Ok(p) => rid_of(p) == s@,
                Err(_) => forall|p: NativePlatform| rid_of(p) != s@,
            },
    {
        if str_eq(s, "win-x64") {
            Ok(NativePlatform::WinX64)
        } else if str_eq(s, "linux-x64") {
            Ok(NativePlatform::LinuxX64)
        } else if str_eq(s, "linux-musl-x64") {
            Ok(NativePlatform::LinuxMuslX64)
        } else if str_eq(s, "osx-x64") {
            Ok(NativePlatform::OsxX64)
        } else {
            Err("Unrecognized platform")
        }
    }
}

} // verus!
