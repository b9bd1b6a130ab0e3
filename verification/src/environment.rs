use vstd::prelude::*;

use crate::error::Error;
use crate::textutil::str_eq;

verus! {

broadcast use vstd::string::group_string_axioms;

/// A CPU architecture a build can target.
#[non_exhaustive]
#[derive(Debug, Clone, Copy, PartialEq, Eq, Structural)]
pub enum Architecture {
    X86_64,
    X86,
    Aarch64,
    ArmV7,
}

impl Architecture {
    /// Parses the fixed lower-case spelling used on the command line.
    pub fn from_tasje_name(name: &str) -> (r: Result<Architecture, Error>)
        ensures
            name@ == "x86_64"@ ==> r == Result::<Architecture, Error>::Ok(Architecture::X86_64),
            name@ == "x86"@ ==> r == Result::<Architecture, Error>::Ok(Architecture::X86),
            name@ == "aarch64"@ ==> r == Result::<Architecture, Error>::Ok(Architecture::Aarch64),
            name@ == "armv7"@ ==> r == Result::<Architecture, Error>::Ok(Architecture::ArmV7),
            (name@ != "x86_64"@ && name@ != "x86"@ && name@ != "aarch64"@ && name@ != "armv7"@)
                ==> (r matches Err(e) && e matches Error::UnknownEnvironmentName(n) && n@ == name@),
    {
        proof {
            reveal_strlit("x86_64");
            reveal_strlit("x86");
            reveal_strlit("aarch64");
            reveal_strlit("armv7");
            assert("x86_64"@.len() == 6);
            assert("x86"@.len() == 3);
            assert("aarch64"@.len() == 7);
            assert("armv7"@.len() == 5);
        }
        if str_eq(name, "x86_64") {
            Ok(Architecture::X86_64)
        } else if str_eq(name, "x86") {
            Ok(Architecture::X86)
        } else if str_eq(name, "aarch64") {
            Ok(Architecture::Aarch64)
        } else if str_eq(name, "armv7") {
            Ok(Architecture::ArmV7)
        } else {
            Err(Error::UnknownEnvironmentName(name.to_owned()))
        }
    }

    /// The spec-level runtime name, used in `${arch}` template expansion.
    pub open spec fn node_name(self) -> Seq<char> {
        match self {
            Architecture::X86_64 => "x64"@,
            Architecture::X86 => "ia32"@,
            Architecture::Aarch64 => "arm64"@,
            Architecture::ArmV7 => "arm"@,
        }
    }

    /// The name the runtime gives this architecture (`process.arch`).
    pub fn to_node(&self) -> (r: &'static str)
        ensures
            r@ == self.node_name(),
    {
        match self {
            Architecture::X86_64 => "x64",
            Architecture::X86 => "ia32",
            Architecture::Aarch64 => "arm64",
            Architecture::ArmV7 => "arm",
        }
    }
}

/// An operating system a build can target.
#[non_exhaustive]
#[derive(Debug, Clone, Copy, PartialEq, Eq, Structural)]
pub enum Platform {
    Linux,
    Windows,
    Darwin,
}

impl Platform {
    /// Parses the fixed lower-case spelling used on the command line.
    pub fn from_tasje_name(name: &str) -> (r: Result<Platform, Error>)
        ensures
            name@ == "linux"@ ==> r == Result::<Platform, Error>::Ok(Platform::Linux),
            name@ == "windows"@ ==> r == Result::<Platform, Error>::Ok(Platform::Windows),
            name@ == "darwin"@ ==> r == Result::<Platform, Error>::Ok(Platform::Darwin),
            (name@ != "linux"@ && name@ != "windows"@ && name@ != "darwin"@)
                ==> (r matches Err(e) && e matches Error::UnknownEnvironmentName(n) && n@ == name@),
    {
        proof {
            reveal_strlit("linux");
            reveal_strlit("windows");
            reveal_strlit("darwin");
            assert("linux"@.len() == 5);
            assert("windows"@.len() == 7);
            assert("darwin"@.len() == 6);
        }
        if str_eq(name, "linux") {
            Ok(Platform::Linux)
        } else if str_eq(name, "windows") {
            Ok(Platform::Windows)
        } else if str_eq(name, "darwin") {
            Ok(Platform::Darwin)
        } else {
            Err(Error::UnknownEnvironmentName(name.to_owned()))
        }
    }

    /// The spec-level runtime name, used in `${platform}` template expansion.
    pub open spec fn node_name(self) -> Seq<char> {
        match self {
            Platform::Linux => "linux"@,
            Platform::Windows => "win32"@,
            Platform::Darwin => "darwin"@,
        }
    }

    /// The name the runtime gives this platform (`process.platform`).
    pub fn to_node(&self) -> (r: &'static str)
        ensures
            r@ == self.node_name(),
    {
        match self {
            Platform::Linux => "linux",
            Platform::Windows => "win32",
            Platform::Darwin => "darwin",
        }
    }
}

/// The pair of targets a pack run is built for.
#[derive(Debug, Clone, Copy, PartialEq, Eq, Structural)]
pub struct Environment {
    pub architecture: Architecture,
    pub platform: Platform,
}

} // verus!
