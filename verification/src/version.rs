//! Vulkan API version numbers: packing the parts of a version into one word
//! and reading them back.

use vstd::prelude::*;

verus! {

/// A packed version number, as ash's `make_api_version` builds it.
pub open spec fn spec_make_api_version(variant: u32, major: u32, minor: u32, patch: u32) -> u32 {
    (variant << 29u32) | (major << 22u32) | (minor << 12u32) | patch
}

/// The major version of a packed version number, as ash's `api_version_major`
/// reads it.
pub open spec fn spec_api_version_major(version: u32) -> u32 {
    (version >> 22u32) & 0x7fu32
}

/// The minor version of a packed version number, as ash's `api_version_minor`
/// reads it.
pub open spec fn spec_api_version_minor(version: u32) -> u32 {
    (version >> 12u32) & 0x3ffu32
}

/// Trusted: `ash::vk::make_api_version`, whose source is the one expression
/// `(variant << 29) | (major << 22) | (minor << 12) | patch`.
#[verifier::external_body]
fn ash_make_api_version(variant: u32, major: u32, minor: u32, patch: u32) -> (r: u32)
    ensures
        r == spec_make_api_version(variant, major, minor, patch),
{
    ash::vk::make_api_version(variant, major, minor, patch)
}

/// Trusted: `ash::vk::api_version_major`, whose source is the one expression
/// `(version >> 22) & 0x7f`.
#[verifier::external_body]
fn ash_api_version_major(version: u32) -> (r: u32)
    ensures
        r == spec_api_version_major(version),
{
    ash::vk::api_version_major(version)
}

/// Trusted: `ash::vk::api_version_minor`, whose source is the one expression
/// `(version >> 12) & 0x3ff`.
#[verifier::external_body]
fn ash_api_version_minor(version: u32) -> (r: u32)
    ensures
        r == spec_api_version_minor(version),
{
    ash::vk::api_version_minor(version)
}

/// Packs a Vulkan API version from its variant, major, minor and patch numbers.
pub fn make_api_version(variant: u32, major: u32, minor: u32, patch: u32) -> (r: u32)
    ensures
        r == spec_make_api_version(variant, major, minor, patch),
        variant < 8 && major < 128 && minor < 1024 && patch < 4096 ==> r == variant * 0x2000_0000
            + major * 0x40_0000 + minor * 0x1000 + patch,
{
    let r = ash_make_api_version(variant, major, minor, patch);
    if variant < 8 && major < 128 && minor < 1024 && patch < 4096 {
        assert(((variant << 29u32) | (major << 22u32) | (minor << 12u32) | patch) == variant
            * 0x2000_0000 + major * 0x40_0000 + minor * 0x1000 + patch) by (bit_vector)
            requires
                variant < 8,
                major < 128,
                minor < 1024,
                patch < 4096,
        ;
    }
    r
}

/// The major and minor numbers of a packed Vulkan API version, as a device
/// reports it.
pub fn api_version_major_minor(version: u32) -> (r: (u32, u32))
    ensures
        r.0 == spec_api_version_major(version),
        r.1 == spec_api_version_minor(version),
{
    (ash_api_version_major(version), ash_api_version_minor(version))
}

/// Reading back a packed version gives the major and minor numbers it was
/// packed from, whenever each part fits its field (variant below 8, major
/// below 128, minor below 1024, patch below 4096).
pub proof fn lemma_api_version_round_trip(variant: u32, major: u32, minor: u32, patch: u32)
    requires
        variant < 8,
        major < 128,
        minor < 1024,
        patch < 4096,
    ensures
        spec_api_version_major(spec_make_api_version(variant, major, minor, patch)) == major,
        spec_api_version_minor(spec_make_api_version(variant, major, minor, patch)) == minor,
{
    assert((((variant << 29u32) | (major << 22u32) | (minor << 12u32) | patch) >> 22u32) & 0x7fu32
        == major) by (bit_vector)
        requires
            variant < 8,
            major < 128,
            minor < 1024,
            patch < 4096,
    ;
    assert((((variant << 29u32) | (major << 22u32) | (minor << 12u32) | patch) >> 12u32) & 0x3ffu32
        == minor) by (bit_vector)
        requires
            variant < 8,
            major < 128,
            minor < 1024,
            patch < 4096,
    ;
}

} // verus!
