//! The backend as one of several that a caller may choose from.

use vstd::prelude::*;
use vstd::string::*;

use crate::platform;
use crate::platform::Platform;
use crate::text;

verus! {

/// Offers the microsandbox backend.
pub struct MsbBackendProvider;

/// Why a host cannot use this backend.
pub open spec fn unsupported_reason_spec(os: Seq<char>, arch: Seq<char>) -> Seq<char> {
    if platform::platform_of(os, arch) is None {
        "no msb build for "@ + os + "/"@ + arch
            + " (Intel Mac/Windows: use the docker backend)"@
    } else {
        "/dev/kvm is not accessible (need KVM, or run on Apple Silicon macOS)"@
    }
}

impl MsbBackendProvider {
    /// The name callers choose the backend by.
    pub fn name(&self) -> (name: &'static str)
        ensures
            name@ == "microsandbox"@,
    {
        "microsandbox"
    }

    /// The rank among the backends that a host supports.
    pub fn priority(&self) -> (rank: u32)
        ensures
            rank == 20,
    {
        20
    }

    /// Whether a host can use this backend: it has a build and can run virtual machines.
    pub fn is_supported(&self, os: &str, arch: &str, kvm_accessible: bool) -> (yes: bool)
        ensures
            yes == (platform::platform_of(os@, arch@) is Some && platform::can_virtualize(
                os@,
                arch@,
                kvm_accessible,
            )),
    {
        Platform::current(os, arch).is_some() && Platform::virtualization_available(
            os,
            arch,
            kvm_accessible,
        )
    }

    /// Why a host cannot use this backend.
    pub fn unsupported_reason(&self, os: &str, arch: &str) -> (reason: String)
        ensures
            reason@ == unsupported_reason_spec(os@, arch@),
    {
        if Platform::current(os, arch).is_none() {
            let mut reason = "no msb build for ".to_owned();
            reason.append(os);
            reason.append("/");
            reason.append(arch);
            reason.append(" (Intel Mac/Windows: use the docker backend)");
            reason
        } else {
            "/dev/kvm is not accessible (need KVM, or run on Apple Silicon macOS)".to_owned()
        }
    }
}

/// A host without a build is told its system and its processor; one with a build is told of the
/// KVM device.
pub proof fn law_a_host_is_told_what_it_lacks(os: Seq<char>, arch: Seq<char>)
    ensures
        platform::platform_of(os, arch) is None ==> text::contains_text(
            unsupported_reason_spec(os, arch),
            os + "/"@ + arch,
        ),
        platform::platform_of(os, arch) is Some ==> text::contains_text(
            unsupported_reason_spec(os, arch),
            "/dev/kvm is not accessible"@,
        ),
{
    let reason = unsupported_reason_spec(os, arch);
    if platform::platform_of(os, arch) is None {
        text::law_a_text_is_contained_in_what_surrounds_it(
            "no msb build for "@,
            os + "/"@ + arch,
            " (Intel Mac/Windows: use the docker backend)"@,
        );
        assert(reason =~= "no msb build for "@ + (os + "/"@ + arch)
            + " (Intel Mac/Windows: use the docker backend)"@);
    } else {
        reveal_strlit("/dev/kvm is not accessible (need KVM, or run on Apple Silicon macOS)");
        reveal_strlit("/dev/kvm is not accessible");
        assert(reason.subrange(0, 26) =~= "/dev/kvm is not accessible"@);
        assert(text::occurs_at(reason, "/dev/kvm is not accessible"@, 0));
    }
}

} // verus!
