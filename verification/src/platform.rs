//! The hosts that `msb` has a build for.

use vstd::prelude::*;
use vstd::string::*;

use crate::text;

verus! {

/// A host that `msb` has a build for.
#[derive(Clone, Copy, Debug, PartialEq, Eq, Structural)]
pub enum Platform {
    DarwinArm64,
    LinuxX64,
    LinuxArm64,
    WindowsX64,
    WindowsArm64,
}

/// The platform of an operating system and an architecture, as std names them.
pub open spec fn platform_of(os: Seq<char>, arch: Seq<char>) -> Option<Platform> {
    if os == "macos"@ && arch == "aarch64"@ {
        Some(Platform::DarwinArm64)
    } else if os == "linux"@ && arch == "x86_64"@ {
        Some(Platform::LinuxX64)
    } else if os == "linux"@ && arch == "aarch64"@ {
        Some(Platform::LinuxArm64)
    } else if os == "windows"@ && arch == "x86_64"@ {
        Some(Platform::WindowsX64)
    } else if os == "windows"@ && arch == "aarch64"@ {
        Some(Platform::WindowsArm64)
    } else {
        None
    }
}

/// Whether a host can run a virtual machine: `msb` has a build for it, and on Linux the KVM
/// device may be read and written besides.
pub open spec fn can_virtualize(os: Seq<char>, arch: Seq<char>, kvm_accessible: bool) -> bool {
    platform_of(os, arch) is Some && (os == "linux"@ ==> kvm_accessible)
}

impl Platform {
    /// The platform of the host, from the names std gives its operating system and its
    /// architecture.
    pub fn current(os: &str, arch: &str) -> (platform: Option<Platform>)
        ensures
            platform == platform_of(os@, arch@),
    {
        let arm = text::same_text(arch, "aarch64");
        let intel = text::same_text(arch, "x86_64");
        if text::same_text(os, "macos") && arm {
            Some(Platform::DarwinArm64)
        } else if text::same_text(os, "linux") && intel {
            Some(Platform::LinuxX64)
        } else if text::same_text(os, "linux") && arm {
            Some(Platform::LinuxArm64)
        } else if text::same_text(os, "windows") && intel {
            Some(Platform::WindowsX64)
        } else if text::same_text(os, "windows") && arm {
            Some(Platform::WindowsArm64)
        } else {
            None
        }
    }

    /// The release asset that holds `msb`.
    pub fn msb_asset(&self) -> (name: &'static str)
        ensures
            name@ == msb_asset_spec(*self),
    {
        match self {
            Platform::DarwinArm64 => "msb-darwin-aarch64",
            Platform::LinuxX64 => "msb-linux-x86_64",
            Platform::LinuxArm64 => "msb-linux-aarch64",
            Platform::WindowsX64 => "msb-windows-x86_64.exe",
            Platform::WindowsArm64 => "msb-windows-aarch64.exe",
        }
    }

    /// The release asset that holds the guest kernel.
    pub fn krun_asset(&self) -> (name: &'static str)
        ensures
            name@ == krun_asset_spec(*self),
    {
        match self {
            Platform::DarwinArm64 => "libkrunfw-darwin-aarch64.dylib",
            Platform::LinuxX64 => "libkrunfw-linux-x86_64.so",
            Platform::LinuxArm64 => "libkrunfw-linux-aarch64.so",
            Platform::WindowsX64 => "libkrunfw-windows-x86_64.dll",
            Platform::WindowsArm64 => "libkrunfw-windows-aarch64.dll",
        }
    }

    /// The file name under which `msb` looks for the guest kernel.
    pub fn krun_install_name(&self) -> (name: &'static str)
        ensures
            name@ == krun_install_name_spec(*self),
    {
        match self {
            Platform::DarwinArm64 => "libkrunfw.5.dylib",
            Platform::LinuxX64 | Platform::LinuxArm64 => "libkrunfw.so.5.6.1",
            Platform::WindowsX64 | Platform::WindowsArm64 => "libkrunfw.dll",
        }
    }

    /// Whether the host can run a virtual machine: there is a build for it, and on Linux the
    /// KVM device may be read and written besides.
    pub fn virtualization_available(os: &str, arch: &str, kvm_accessible: bool) -> (yes: bool)
        ensures
            yes == can_virtualize(os@, arch@, kvm_accessible),
    {
        Platform::current(os, arch).is_some() && (kvm_accessible || !text::same_text(os, "linux"))
    }
}

/// The release asset that holds `msb`.
pub open spec fn msb_asset_spec(platform: Platform) -> Seq<char> {
    match platform {
        Platform::DarwinArm64 => "msb-darwin-aarch64"@,
        Platform::LinuxX64 => "msb-linux-x86_64"@,
        Platform::LinuxArm64 => "msb-linux-aarch64"@,
        Platform::WindowsX64 => "msb-windows-x86_64.exe"@,
        Platform::WindowsArm64 => "msb-windows-aarch64.exe"@,
    }
}

/// The release asset that holds the guest kernel.
pub open spec fn krun_asset_spec(platform: Platform) -> Seq<char> {
    match platform {
        Platform::DarwinArm64 => "libkrunfw-darwin-aarch64.dylib"@,
        Platform::LinuxX64 => "libkrunfw-linux-x86_64.so"@,
        Platform::LinuxArm64 => "libkrunfw-linux-aarch64.so"@,
        Platform::WindowsX64 => "libkrunfw-windows-x86_64.dll"@,
        Platform::WindowsArm64 => "libkrunfw-windows-aarch64.dll"@,
    }
}

/// The file name under which `msb` looks for the guest kernel.
pub open spec fn krun_install_name_spec(platform: Platform) -> Seq<char> {
    match platform {
        Platform::DarwinArm64 => "libkrunfw.5.dylib"@,
        Platform::LinuxX64 | Platform::LinuxArm64 => "libkrunfw.so.5.6.1"@,
        Platform::WindowsX64 | Platform::WindowsArm64 => "libkrunfw.dll"@,
    }
}

/// There is a build for exactly five hosts: the Mac with Apple's own processors, and Linux and
/// Windows on both processors that std names `x86_64` and `aarch64`.
pub proof fn law_the_hosts_that_have_a_build(os: Seq<char>, arch: Seq<char>)
    ensures
        platform_of("macos"@, "aarch64"@) == Some(Platform::DarwinArm64),
        platform_of("linux"@, "x86_64"@) == Some(Platform::LinuxX64),
        platform_of("linux"@, "aarch64"@) == Some(Platform::LinuxArm64),
        platform_of("windows"@, "x86_64"@) == Some(Platform::WindowsX64),
        platform_of("windows"@, "aarch64"@) == Some(Platform::WindowsArm64),
        os != "macos"@ && os != "linux"@ && os != "windows"@ ==> platform_of(os, arch) is None,
        arch != "x86_64"@ && arch != "aarch64"@ ==> platform_of(os, arch) is None,
        os == "macos"@ && arch != "aarch64"@ ==> platform_of(os, arch) is None,
{
    reveal_strlit("macos");
    reveal_strlit("linux");
    reveal_strlit("windows");
    reveal_strlit("x86_64");
    reveal_strlit("aarch64");
    assert("linux"@[0] == 'l' && "macos"@[0] == 'm' && "windows"@[0] == 'w');
    assert("x86_64"@[0] == 'x' && "aarch64"@[0] == 'a');
}

/// Of the hosts that have a build, those with Linux can run a virtual machine exactly where the
/// KVM device may be used, and the others always can; a host without a build never can.
pub proof fn law_which_hosts_can_virtualize(os: Seq<char>, arch: Seq<char>, kvm_accessible: bool)
    ensures
        can_virtualize("macos"@, "aarch64"@, kvm_accessible),
        can_virtualize("windows"@, "x86_64"@, kvm_accessible),
        can_virtualize("windows"@, "aarch64"@, kvm_accessible),
        can_virtualize("linux"@, "x86_64"@, kvm_accessible) == kvm_accessible,
        can_virtualize("linux"@, "aarch64"@, kvm_accessible) == kvm_accessible,
        platform_of(os, arch) is None ==> !can_virtualize(os, arch, kvm_accessible),
{
    law_the_hosts_that_have_a_build(os, arch);
    reveal_strlit("macos");
    reveal_strlit("linux");
    reveal_strlit("windows");
    assert("linux"@[0] == 'l' && "macos"@[0] == 'm' && "windows"@[0] == 'w');
}

/// What is downloaded for a platform tells its system and its processor, and both downloads are
/// of the same platform.
pub proof fn law_assets_are_those_of_the_platform()
    ensures
        msb_asset_spec(Platform::DarwinArm64) == "msb-"@ + "darwin-aarch64"@,
        krun_asset_spec(Platform::DarwinArm64) == "libkrunfw-"@ + "darwin-aarch64"@ + ".dylib"@,
        msb_asset_spec(Platform::LinuxX64) == "msb-"@ + "linux-x86_64"@,
        krun_asset_spec(Platform::LinuxX64) == "libkrunfw-"@ + "linux-x86_64"@ + ".so"@,
        msb_asset_spec(Platform::LinuxArm64) == "msb-"@ + "linux-aarch64"@,
        krun_asset_spec(Platform::LinuxArm64) == "libkrunfw-"@ + "linux-aarch64"@ + ".so"@,
        msb_asset_spec(Platform::WindowsX64) == "msb-"@ + "windows-x86_64"@ + ".exe"@,
        krun_asset_spec(Platform::WindowsX64) == "libkrunfw-"@ + "windows-x86_64"@ + ".dll"@,
        msb_asset_spec(Platform::WindowsArm64) == "msb-"@ + "windows-aarch64"@ + ".exe"@,
        krun_asset_spec(Platform::WindowsArm64) == "libkrunfw-"@ + "windows-aarch64"@ + ".dll"@,
{
    reveal_strlit("msb-");
    reveal_strlit("libkrunfw-");
    reveal_strlit("darwin-aarch64");
    reveal_strlit("linux-x86_64");
    reveal_strlit("linux-aarch64");
    reveal_strlit("windows-x86_64");
    reveal_strlit("windows-aarch64");
    reveal_strlit(".dylib");
    reveal_strlit(".so");
    reveal_strlit(".exe");
    reveal_strlit(".dll");
    reveal_strlit("msb-darwin-aarch64");
    reveal_strlit("msb-linux-x86_64");
    reveal_strlit("msb-linux-aarch64");
    reveal_strlit("msb-windows-x86_64.exe");
    reveal_strlit("msb-windows-aarch64.exe");
    reveal_strlit("libkrunfw-darwin-aarch64.dylib");
    reveal_strlit("libkrunfw-linux-x86_64.so");
    reveal_strlit("libkrunfw-linux-aarch64.so");
    reveal_strlit("libkrunfw-windows-x86_64.dll");
    reveal_strlit("libkrunfw-windows-aarch64.dll");
    assert("msb-darwin-aarch64"@ =~= "msb-"@ + "darwin-aarch64"@);
    assert("msb-linux-x86_64"@ =~= "msb-"@ + "linux-x86_64"@);
    assert("msb-linux-aarch64"@ =~= "msb-"@ + "linux-aarch64"@);
    assert("msb-windows-x86_64.exe"@ =~= "msb-"@ + "windows-x86_64"@ + ".exe"@);
    assert("msb-windows-aarch64.exe"@ =~= "msb-"@ + "windows-aarch64"@ + ".exe"@);
    assert("libkrunfw-darwin-aarch64.dylib"@ =~= "libkrunfw-"@ + "darwin-aarch64"@ + ".dylib"@);
    assert("libkrunfw-linux-x86_64.so"@ =~= "libkrunfw-"@ + "linux-x86_64"@ + ".so"@);
    assert("libkrunfw-linux-aarch64.so"@ =~= "libkrunfw-"@ + "linux-aarch64"@ + ".so"@);
    assert("libkrunfw-windows-x86_64.dll"@ =~= "libkrunfw-"@ + "windows-x86_64"@ + ".dll"@);
    assert("libkrunfw-windows-aarch64.dll"@ =~= "libkrunfw-"@ + "windows-aarch64"@ + ".dll"@);
}

} // verus!
