//! The fixed set of conda platforms (subdirectories) a package can belong to.

use vstd::prelude::*;
use crate::strutil::{chars_of, string_of, vec_eq_str};

verus! {

broadcast use vstd::string::group_string_axioms;

/// A conda platform, named after its repository subdirectory.
#[derive(Clone, Copy, Debug, PartialEq, Eq, Structural, Hash)]
pub enum Platform {
    Linux64,
    Linux32,
    LinuxAarch64,
    LinuxArmV6l,
    LinuxArmV7l,
    LinuxPpc64le,
    LinuxS390X,
    Osx64,
    OsxArm64,
    Win32,
    Win64,
    NoArch,
}

/// The subdirectory name of a platform.
pub open spec fn spec_subdir(p: Platform) -> Seq<char> {
    match p {
        Platform::Linux64 => "linux-64"@,
        Platform::Linux32 => "linux-32"@,
        Platform::LinuxAarch64 => "linux-aarch64"@,
        Platform::LinuxArmV6l => "linux-armv6l"@,
        Platform::LinuxArmV7l => "linux-armv7l"@,
        Platform::LinuxPpc64le => "linux-ppc64le"@,
        Platform::LinuxS390X => "linux-s390x"@,
        Platform::Osx64 => "osx-64"@,
        Platform::OsxArm64 => "osx-arm64"@,
        Platform::Win32 => "win-32"@,
        Platform::Win64 => "win-64"@,
        Platform::NoArch => "noarch"@,
    }
}

/// The platform whose subdirectory name is `s`, if any.
pub open spec fn spec_platform_of_subdir(s: Seq<char>) -> Option<Platform> {
    if s == "linux-64"@ {
        Some(Platform::Linux64)
    } else if s == "linux-32"@ {
        Some(Platform::Linux32)
    } else if s == "linux-aarch64"@ {
        Some(Platform::LinuxAarch64)
    } else if s == "linux-armv6l"@ {
        Some(Platform::LinuxArmV6l)
    } else if s == "linux-armv7l"@ {
        Some(Platform::LinuxArmV7l)
    } else if s == "linux-ppc64le"@ {
        Some(Platform::LinuxPpc64le)
    } else if s == "linux-s390x"@ {
        Some(Platform::LinuxS390X)
    } else if s == "osx-64"@ {
        Some(Platform::Osx64)
    } else if s == "osx-arm64"@ {
        Some(Platform::OsxArm64)
    } else if s == "win-32"@ {
        Some(Platform::Win32)
    } else if s == "win-64"@ {
        Some(Platform::Win64)
    } else if s == "noarch"@ {
        Some(Platform::NoArch)
    } else {
        None
    }
}

/// Whether `s` is one of the twelve canonical subdirectory names.
pub open spec fn spec_is_platform_str(s: Seq<char>) -> bool {
    spec_platform_of_subdir(s) is Some
}

/// A platform hint parses if it is a subdirectory name or one of the bare
/// identifiers `linux`, `osx`, `win`, which default to their 64-bit platform.
pub open spec fn spec_platform_of_hint(s: Seq<char>) -> Option<Platform> {
    if spec_platform_of_subdir(s) is Some {
        spec_platform_of_subdir(s)
    } else if s == "linux"@ {
        Some(Platform::Linux64)
    } else if s == "osx"@ {
        Some(Platform::Osx64)
    } else if s == "win"@ {
        Some(Platform::Win64)
    } else {
        None
    }
}

/// The subdirectory a `(platform, arch)` pair from a manifest maps to.
pub open spec fn spec_platform_of_pair(p: Seq<char>, a: Seq<char>) -> Option<Platform> {
    if p == "linux"@ && a == "x86_64"@ {
        Some(Platform::Linux64)
    } else if p == "linux"@ && a == "aarch64"@ {
        Some(Platform::LinuxAarch64)
    } else if p == "osx"@ && a == "x86_64"@ {
        Some(Platform::Osx64)
    } else if p == "osx"@ && a == "arm64"@ {
        Some(Platform::OsxArm64)
    } else if p == "win"@ && a == "x86_64"@ {
        Some(Platform::Win64)
    } else if p == "win"@ && a == "x86"@ {
        Some(Platform::Win32)
    } else {
        None
    }
}

impl Platform {
    /// The platform's subdirectory name.
    pub fn subdir(&self) -> (r: String)
        ensures
            r@ == spec_subdir(*self),
    {
        let s = match self {
            Platform::Linux64 => "linux-64",
            Platform::Linux32 => "linux-32",
            Platform::LinuxAarch64 => "linux-aarch64",
            Platform::LinuxArmV6l => "linux-armv6l",
            Platform::LinuxArmV7l => "linux-armv7l",
            Platform::LinuxPpc64le => "linux-ppc64le",
            Platform::LinuxS390X => "linux-s390x",
            Platform::Osx64 => "osx-64",
            Platform::OsxArm64 => "osx-arm64",
            Platform::Win32 => "win-32",
            Platform::Win64 => "win-64",
            Platform::NoArch => "noarch",
        };
        let v = chars_of(s);
        string_of(&v)
    }

    /// Look up a subdirectory name.
    pub fn from_subdir_chars(v: &Vec<char>) -> (r: Option<Platform>)
        ensures
            r == spec_platform_of_subdir(v@),
    {
        if vec_eq_str(v, "linux-64") {
            Some(Platform::Linux64)
        } else if vec_eq_str(v, "linux-32") {
            Some(Platform::Linux32)
        } else if vec_eq_str(v, "linux-aarch64") {
            Some(Platform::LinuxAarch64)
        } else if vec_eq_str(v, "linux-armv6l") {
            Some(Platform::LinuxArmV6l)
        } else if vec_eq_str(v, "linux-armv7l") {
            Some(Platform::LinuxArmV7l)
        } else if vec_eq_str(v, "linux-ppc64le") {
            Some(Platform::LinuxPpc64le)
        } else if vec_eq_str(v, "linux-s390x") {
            Some(Platform::LinuxS390X)
        } else if vec_eq_str(v, "osx-64") {
            Some(Platform::Osx64)
        } else if vec_eq_str(v, "osx-arm64") {
            Some(Platform::OsxArm64)
        } else if vec_eq_str(v, "win-32") {
            Some(Platform::Win32)
        } else if vec_eq_str(v, "win-64") {
            Some(Platform::Win64)
        } else if vec_eq_str(v, "noarch") {
            Some(Platform::NoArch)
        } else {
            None
        }
    }

    /// Look up a subdirectory name given as a string slice.
    pub fn from_subdir(s: &str) -> (r: Option<Platform>)
        ensures
            r == spec_platform_of_subdir(s@),
    {
        let v = chars_of(s);
        Self::from_subdir_chars(&v)
    }

    /// Parse a platform hint: a subdirectory name or a bare `linux`, `osx`
    /// or `win`, which default to their 64-bit platform.
    pub fn from_hint_chars(v: &Vec<char>) -> (r: Option<Platform>)
        ensures
            r == spec_platform_of_hint(v@),
    {
        match Self::from_subdir_chars(v) {
            Some(p) => Some(p),
            None => {
                if vec_eq_str(v, "linux") {
                    Some(Platform::Linux64)
                } else if vec_eq_str(v, "osx") {
                    Some(Platform::Osx64)
                } else if vec_eq_str(v, "win") {
                    Some(Platform::Win64)
                } else {
                    None
                }
            },
        }
    }

    /// The subdirectory a manifest `(platform, arch)` pair maps to.
    pub fn from_platform_arch(p: &Vec<char>, a: &Vec<char>) -> (r: Option<Platform>)
        ensures
            r == spec_platform_of_pair(p@, a@),
    {
        proof {
            reveal_strlit("linux");
            reveal_strlit("osx");
            reveal_strlit("win");
            assert("linux"@.len() == 5 && "osx"@.len() == 3 && "win"@.len() == 3);
            assert("osx"@ != "win"@) by {
                assert("osx"@[0] != "win"@[0]);
            }
        }
        let is_x86_64 = vec_eq_str(a, "x86_64");
        if vec_eq_str(p, "linux") {
            if is_x86_64 {
                Some(Platform::Linux64)
            } else if vec_eq_str(a, "aarch64") {
                Some(Platform::LinuxAarch64)
            } else {
                None
            }
        } else if vec_eq_str(p, "osx") {
            if is_x86_64 {
                Some(Platform::Osx64)
            } else if vec_eq_str(a, "arm64") {
                Some(Platform::OsxArm64)
            } else {
                None
            }
        } else if vec_eq_str(p, "win") {
            if is_x86_64 {
                Some(Platform::Win64)
            } else if vec_eq_str(a, "x86") {
                Some(Platform::Win32)
            } else {
                None
            }
        } else {
            None
        }
    }
}

/// Each platform's subdirectory name is recognized by the subdirectory
/// lookup, and no two platforms share a name.
pub proof fn lemma_subdir_roundtrip(p: Platform)
    ensures
        spec_platform_of_subdir(spec_subdir(p)) == Some(p),
{
    reveal_strlit("linux-64");
    reveal_strlit("linux-32");
    reveal_strlit("linux-aarch64");
    reveal_strlit("linux-armv6l");
    reveal_strlit("linux-armv7l");
    reveal_strlit("linux-ppc64le");
    reveal_strlit("linux-s390x");
    reveal_strlit("osx-64");
    reveal_strlit("osx-arm64");
    reveal_strlit("win-32");
    reveal_strlit("win-64");
    reveal_strlit("noarch");
    assert("linux-64"@.len() == 8);
    assert("linux-32"@.len() == 8);
    assert("linux-aarch64"@.len() == 13);
    assert("linux-armv6l"@.len() == 12);
    assert("linux-armv7l"@.len() == 12);
    assert("linux-ppc64le"@.len() == 13);
    assert("linux-s390x"@.len() == 11);
    assert("osx-64"@.len() == 6);
    assert("osx-arm64"@.len() == 9);
    assert("win-32"@.len() == 6);
    assert("win-64"@.len() == 6);
    assert("noarch"@.len() == 6);
    assert("linux-64"@ != "linux-32"@) by {
        assert("linux-64"@[6] != "linux-32"@[6]);
    }
    assert("linux-aarch64"@ != "linux-ppc64le"@) by {
        assert("linux-aarch64"@[6] != "linux-ppc64le"@[6]);
    }
    assert("linux-armv6l"@ != "linux-armv7l"@) by {
        assert("linux-armv6l"@[10] != "linux-armv7l"@[10]);
    }
    assert("osx-64"@ != "win-32"@) by {
        assert("osx-64"@[0] != "win-32"@[0]);
    }
    assert("osx-64"@ != "win-64"@) by {
        assert("osx-64"@[0] != "win-64"@[0]);
    }
    assert("osx-64"@ != "noarch"@) by {
        assert("osx-64"@[0] != "noarch"@[0]);
    }
    assert("win-32"@ != "win-64"@) by {
        assert("win-32"@[4] != "win-64"@[4]);
    }
    assert("win-32"@ != "noarch"@) by {
        assert("win-32"@[0] != "noarch"@[0]);
    }
    assert("win-64"@ != "noarch"@) by {
        assert("win-64"@[0] != "noarch"@[0]);
    }
}

} // verus!
