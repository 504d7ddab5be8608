//! The wallpaper-setting protocol: what to run and how its two steps
//! combine.
//!
//! The helper process itself is spawned outside this crate; the core fixes
//! the command lines for both steps and the rule that the operation succeeds
//! exactly when the preload step and then the apply step both succeed.

use vstd::prelude::*;
use vstd::string::{StrSliceExecFns, StringExecFns};
use crate::errors::ViewerError;

verus! {

/// Where the two-step protocol stands: preload first, then apply to all
/// outputs; any failed step is final.
#[derive(Clone, Copy, Debug, PartialEq, Eq, Structural)]
pub enum WallpaperPhase {
    Preload,
    Apply,
    Done,
    Failed,
}

/// The helper command both steps run.
pub fn wallpaper_tool() -> (r: &'static str)
    ensures
        r@ == "hyprctl"@,
{
    "hyprctl"
}

/// Arguments of the preload step for a canonicalized image path.
pub fn preload_args(path: &String) -> (r: Vec<String>)
    ensures
        r@.len() == 3,
        r@[0]@ == "hyprpaper"@,
        r@[1]@ == "preload"@,
        r@[2]@ == path@,
{
    let mut args: Vec<String> = Vec::new();
    args.push(String::from_str("hyprpaper"));
    args.push(String::from_str("preload"));
    args.push(path.clone());
    args
}

/// Arguments of the apply step: the empty monitor selector before the comma
/// applies the wallpaper to every output.
pub fn apply_args(path: &String) -> (r: Vec<String>)
    ensures
        r@.len() == 3,
        r@[0]@ == "hyprpaper"@,
        r@[1]@ == "wallpaper"@,
        r@[2]@ == ","@ + path@,
{
    let mut selector = String::from_str(",");
    selector.append(path.as_str());
    let mut args: Vec<String> = Vec::new();
    args.push(String::from_str("hyprpaper"));
    args.push(String::from_str("wallpaper"));
    args.push(selector);
    args
}

/// One step of the protocol: success moves preload to apply and apply to
/// done; any failure is final, and a finished protocol stays where it is.
pub open spec fn spec_wallpaper_step(phase: WallpaperPhase, succeeded: bool) -> WallpaperPhase {
    match phase {
        WallpaperPhase::Preload => if succeeded {
            WallpaperPhase::Apply
        } else {
            WallpaperPhase::Failed
        },
        WallpaperPhase::Apply => if succeeded {
            WallpaperPhase::Done
        } else {
            WallpaperPhase::Failed
        },
        WallpaperPhase::Done => WallpaperPhase::Done,
        WallpaperPhase::Failed => WallpaperPhase::Failed,
    }
}

/// Advances the protocol by the outcome of the step just run.
pub fn wallpaper_step(phase: WallpaperPhase, succeeded: bool) -> (r: WallpaperPhase)
    ensures
        r == spec_wallpaper_step(phase, succeeded),
{
    match phase {
        WallpaperPhase::Preload => if succeeded {
            WallpaperPhase::Apply
        } else {
            WallpaperPhase::Failed
        },
        WallpaperPhase::Apply => if succeeded {
            WallpaperPhase::Done
        } else {
            WallpaperPhase::Failed
        },
        WallpaperPhase::Done => WallpaperPhase::Done,
        WallpaperPhase::Failed => WallpaperPhase::Failed,
    }
}

/// The result of a finished run: only a protocol that reached `Done` counts
/// as success; everything else is the external-tool error.
pub fn wallpaper_outcome(phase: WallpaperPhase) -> (r: Result<(), ViewerError>)
    ensures
        r is Ok <==> phase == WallpaperPhase::Done,
        match r {
            Ok(u) => phase == WallpaperPhase::Done,
            Err(e) => e == ViewerError::ExternalToolFailure,
        },
{
    match phase {
        WallpaperPhase::Done => Ok(()),
        _ => Err(ViewerError::ExternalToolFailure),
    }
}

/// Running both steps from the start succeeds exactly when both report
/// success.
pub proof fn lemma_wallpaper_needs_both(preload_ok: bool, apply_ok: bool)
    ensures
        ({
            let after = spec_wallpaper_step(
                spec_wallpaper_step(WallpaperPhase::Preload, preload_ok),
                apply_ok,
            );
            (after == WallpaperPhase::Done) <==> (preload_ok && apply_ok)
        }),
{
}

} // verus!
