use vstd::prelude::*;

verus! {

/// An OpenGL context version.
#[derive(Debug, Clone, Copy, PartialEq, Eq, Structural)]
pub struct GlVersion {
    pub major: u8,
    pub minor: u8,
}

/// The version asked for first: 4.6 core, forward-compatible.
pub open spec fn preferred_version() -> GlVersion {
    GlVersion { major: 4, minor: 6 }
}

/// The floor asked for once the preferred version failed.
pub open spec fn floor_version() -> GlVersion {
    GlVersion { major: 3, minor: 3 }
}

/// The version to try after `failed` attempts have failed, or `None` when
/// construction is to fail.
pub open spec fn attempt_version(failed: nat) -> Option<GlVersion> {
    if failed == 0 {
        Some(preferred_version())
    } else if failed == 1 {
        Some(floor_version())
    } else {
        None
    }
}

pub fn context_attempt(failed: u32) -> (r: Option<GlVersion>)
    ensures
        r == attempt_version(failed as nat),
{
    if failed == 0 {
        Some(GlVersion { major: 4, minor: 6 })
    } else if failed == 1 {
        Some(GlVersion { major: 3, minor: 3 })
    } else {
        None
    }
}

/// After the preferred version fails, exactly one retry is made, at the floor;
/// no attempt follows a second failure.
pub proof fn lemma_one_retry(failed: nat)
    ensures
        attempt_version(0) == Some(preferred_version()),
        attempt_version(1) == Some(floor_version()),
        failed >= 2 ==> attempt_version(failed) is None,
{
}

/// The shading-language version for a context version: the matching one from
/// 3.3 on, else 150.
pub open spec fn glsl_for(major: nat, minor: nat) -> nat {
    if major * 100 + minor * 10 > 320 {
        major * 100 + minor * 10
    } else {
        150
    }
}

pub fn glsl_version(v: GlVersion) -> (r: u32)
    ensures
        r == glsl_for(v.major as nat, v.minor as nat),
{
    let n = (v.major as u32) * 100 + (v.minor as u32) * 10;
    if n > 320 {
        n
    } else {
        150
    }
}

/// The window side length: the configured one, but no smaller than `min`.
pub fn window_dimension(configured: u32, min: u32) -> (r: u32)
    ensures
        r == if configured >= min { configured } else { min },
{
    if configured >= min {
        configured
    } else {
        min
    }
}

} // verus!
