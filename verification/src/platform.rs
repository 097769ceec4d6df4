//! Decisions that depend on the device: its build type and API level.
use crate::string::str_eq;
use vstd::prelude::*;

verus! {

/// The system property holding the build type.
pub const BUILD_TYPE_PROPERTY: &'static str = "ro.build.type";

/// The first API level of the Cinnamon Bun release.
pub const CINNAMON_BUN_API_LEVEL: i32 = 37;

/// Whether a device whose build type property reads `build_type` (`None` when it is unset or
/// cannot be read) counts as a user build: only "user" is not, when the property is read;
/// an unknown build type is treated as a user build.
pub open spec fn spec_is_user_build(build_type: Option<Seq<char>>) -> bool {
    match build_type {
        Some(t) => t == "user"@,
        None => true,
    }
}

/// Returns true if the build is a user build, given the build type property.
pub fn is_user_build(build_type: Option<&str>) -> (r: bool)
    ensures
        r == spec_is_user_build(
            match build_type {
                Some(t) => Some(t@),
                None => None,
            },
        ),
{
    match build_type {
        Some(t) => str_eq(t, "user"),
        None => true,
    }
}

/// Returns true if the device API level is at least that of Cinnamon Bun.
pub fn is_at_least_cinnamon_bun(api_level: i32) -> (r: bool)
    ensures
        r == (api_level >= CINNAMON_BUN_API_LEVEL),
{
    api_level >= CINNAMON_BUN_API_LEVEL
}

/// Only a build whose type is read and is something other than "user" is treated as a
/// debuggable build; an unreadable build type counts as a user build.
pub proof fn lemma_debuggable_only_when_read(build_type: Option<Seq<char>>)
    ensures
        !spec_is_user_build(build_type) <==> (build_type matches Some(t) && t != "user"@),
{
}

/// A device counts as Cinnamon Bun or later exactly from API level 37 on.
pub proof fn lemma_cinnamon_bun_from_level_37(api_level: i32)
    ensures
        (api_level >= CINNAMON_BUN_API_LEVEL) <==> api_level >= 37,
{
}

} // verus!
