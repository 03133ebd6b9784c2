//! Platforms and the provider.

use rightsize_msb::platform::Platform;
use rightsize_msb::provider::MsbBackendProvider;

#[test]
fn asset_names_match_the_pinned_release_shape() {
    assert_eq!(Platform::DarwinArm64.msb_asset(), "msb-darwin-aarch64");
    assert_eq!(
        Platform::DarwinArm64.krun_asset(),
        "libkrunfw-darwin-aarch64.dylib"
    );
    assert_eq!(Platform::LinuxX64.msb_asset(), "msb-linux-x86_64");
    assert_eq!(Platform::LinuxX64.krun_asset(), "libkrunfw-linux-x86_64.so");
    assert_eq!(Platform::LinuxArm64.msb_asset(), "msb-linux-aarch64");
    assert_eq!(
        Platform::LinuxArm64.krun_asset(),
        "libkrunfw-linux-aarch64.so"
    );
}

#[test]
fn windows_asset_names_match_the_v0_6_3_checksums_sha256_shape() {
    assert_eq!(Platform::WindowsX64.msb_asset(), "msb-windows-x86_64.exe");
    assert_eq!(
        Platform::WindowsX64.krun_asset(),
        "libkrunfw-windows-x86_64.dll"
    );
    assert_eq!(
        Platform::WindowsArm64.msb_asset(),
        "msb-windows-aarch64.exe"
    );
    assert_eq!(
        Platform::WindowsArm64.krun_asset(),
        "libkrunfw-windows-aarch64.dll"
    );
}

#[test]
fn windows_krun_install_name_is_the_canonical_unversioned_dll() {
    assert_eq!(Platform::WindowsX64.krun_install_name(), "libkrunfw.dll");
    assert_eq!(Platform::WindowsArm64.krun_install_name(), "libkrunfw.dll");
}

#[test]
fn windows_platform_detection_maps_os_arch_pairs() {
    assert_eq!(
        Platform::current("windows", "x86_64"),
        Some(Platform::WindowsX64)
    );
    assert_eq!(
        Platform::current("windows", "aarch64"),
        Some(Platform::WindowsArm64)
    );
}

#[test]
fn the_other_platforms_are_detected_too() {
    assert_eq!(Platform::current("macos", "aarch64"), Some(Platform::DarwinArm64));
    assert_eq!(Platform::current("macos", "x86_64"), None);
    assert_eq!(Platform::current("linux", "x86_64"), Some(Platform::LinuxX64));
    assert_eq!(Platform::current("linux", "aarch64"), Some(Platform::LinuxArm64));
    assert_eq!(Platform::current("linux", "riscv64"), None);
    assert_eq!(Platform::current("freebsd", "x86_64"), None);
    assert_eq!(Platform::DarwinArm64.krun_install_name(), "libkrunfw.5.dylib");
    assert_eq!(Platform::LinuxX64.krun_install_name(), "libkrunfw.so.5.6.1");
}

#[test]
fn virtualization_needs_a_build_everywhere_and_kvm_on_linux() {
    assert!(Platform::virtualization_available("linux", "x86_64", true));
    assert!(!Platform::virtualization_available("linux", "x86_64", false));
    assert!(Platform::virtualization_available("linux", "aarch64", true));
    assert!(!Platform::virtualization_available("linux", "riscv64", true));
    assert!(!Platform::virtualization_available("linux", "riscv64", false));
    assert!(Platform::virtualization_available("macos", "aarch64", false));
    assert!(!Platform::virtualization_available("macos", "x86_64", true));
    assert!(Platform::virtualization_available("windows", "x86_64", false));
    assert!(!Platform::virtualization_available("freebsd", "x86_64", true));
}

#[test]
fn name_and_priority_are_pinned() {
    let provider = MsbBackendProvider;
    assert_eq!(provider.name(), "microsandbox");
    assert_eq!(provider.priority(), 20);
}

#[test]
fn unsupported_reason_is_non_empty_either_way() {
    let provider = MsbBackendProvider;
    for (os, arch) in [("linux", "x86_64"), ("macos", "x86_64")] {
        let reason = provider.unsupported_reason(os, arch);
        assert!(!reason.is_empty());
        assert!(
            reason.to_lowercase().contains("kvm") || reason.to_lowercase().contains("docker"),
            "{reason}"
        );
    }
}

#[test]
fn support_needs_a_build_and_virtualization() {
    let provider = MsbBackendProvider;
    assert!(provider.is_supported("linux", "x86_64", true));
    assert!(!provider.is_supported("linux", "x86_64", false));
    assert!(!provider.is_supported("linux", "riscv64", true));
    assert_eq!(
        provider.unsupported_reason("macos", "x86_64"),
        "no msb build for macos/x86_64 (Intel Mac/Windows: use the docker backend)"
    );
    assert_eq!(
        provider.unsupported_reason("linux", "x86_64"),
        "/dev/kvm is not accessible (need KVM, or run on Apple Silicon macOS)"
    );
}
