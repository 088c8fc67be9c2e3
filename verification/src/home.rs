//! Resolution of the Aionix configuration directory.
//!
//! The directory can be forced through an override slot (used by test
//! harnesses), configured through an environment variable whose value must
//! then be canonicalized against the filesystem, or defaulted to a
//! dot-directory under the user's home without existence verification.
//! Reading the environment, the home directory and the filesystem is the
//! caller's business; this module owns the decision between the three.

use crate::env_vars::PlatformFamily;
use crate::text::append_str;
use vstd::prelude::*;

verus! {

/// What the caller must do to obtain the configuration directory.
pub enum AionixHomeDecision {
    /// Use this path as it stands, without touching the filesystem.
    Ready { path: String },
    /// The path was configured explicitly: canonicalize it, and fail with a
    /// not-found error if it does not exist.
    Canonicalize { configured: String },
    /// No override, no configured path, and no home directory is known.
    HomeNotFound,
}

/// What is appended to the home directory to reach the default
/// configuration directory, separator included.
pub open spec fn dot_dir_suffix(platform: PlatformFamily) -> Seq<char> {
    match platform {
        PlatformFamily::Posix => "/.aionix"@,
        PlatformFamily::Windows => "\\.aionix"@,
    }
}

/// Decides where the Aionix configuration directory is.
///
/// An override in the slot wins outright and is taken as-is. Otherwise a
/// non-empty configured value must be canonicalized by the caller. Otherwise
/// the decision is the `.aionix` dot-directory under the home directory,
/// joined with the platform's separator, or a failure when no home
/// directory is known.
pub fn resolve_aionix_home(
    platform: PlatformFamily,
    override_path: Option<String>,
    env_value: Option<String>,
    home_dir: Option<String>,
) -> (d: AionixHomeDecision)
    ensures
        override_path is Some ==> d == (AionixHomeDecision::Ready {
            path: override_path->Some_0,
        }),
        override_path is None && env_value is Some && env_value->Some_0@.len() > 0 ==> d == (
        AionixHomeDecision::Canonicalize { configured: env_value->Some_0 }),
        override_path is None && (env_value is None || env_value->Some_0@.len() == 0) ==> match home_dir {
            Some(home) => d matches AionixHomeDecision::Ready { path } && path@ == home@
                + dot_dir_suffix(platform),
            None => d == AionixHomeDecision::HomeNotFound,
        },
{
    if let Some(path) = override_path {
        return AionixHomeDecision::Ready { path };
    }
    if let Some(val) = env_value {
        if !val.as_str().is_empty() {
            return AionixHomeDecision::Canonicalize { configured: val };
        }
    }
    match home_dir {
        Some(home) => {
            let mut path = home;
            match platform {
                PlatformFamily::Posix => append_str(&mut path, "/.aionix"),
                PlatformFamily::Windows => append_str(&mut path, "\\.aionix"),
            }
            AionixHomeDecision::Ready { path }
        },
        None => AionixHomeDecision::HomeNotFound,
    }
}

/// Restores the previous override when handed back to
/// [`restore_aionix_home_override`]; test harnesses keep one around to undo
/// their override.
pub struct AionixHomeOverrideGuard {
    pub previous: Option<String>,
}

/// Places `path` in the override slot and hands back a guard holding what
/// the slot held before.
pub fn set_aionix_home_override(slot: &mut Option<String>, path: String) -> (g:
    AionixHomeOverrideGuard)
    ensures
        *final(slot) == Some(path),
        g.previous == *old(slot),
{
    let mut current = Some(path);
    core::mem::swap(slot, &mut current);
    AionixHomeOverrideGuard { previous: current }
}

/// Puts back what the slot held before the matching
/// [`set_aionix_home_override`] call.
pub fn restore_aionix_home_override(guard: AionixHomeOverrideGuard, slot: &mut Option<String>)
    ensures
        *final(slot) == guard.previous,
{
    *slot = guard.previous;
}

} // verus!
