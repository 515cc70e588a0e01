//! Timing decisions of small interface overlays.
use vstd::prelude::*;

verus! {

/// The normal-cadence dwell time of the font-size overlay, in milliseconds.
pub const FONT_SIZE_HUD_BASELINE_MS: u64 = 1200;

/// How long the font-size overlay stays, in milliseconds: the baseline as
/// the motion profile scales it (`scaled_baseline_ms`) when motion is
/// enabled, and the plain baseline when it is disabled, since the overlay is
/// informational and must stay readable.
pub fn font_size_hud_duration(motion_enabled: bool, scaled_baseline_ms: u64) -> (r: u64)
    ensures
        r == if motion_enabled { scaled_baseline_ms } else { FONT_SIZE_HUD_BASELINE_MS },
{
    if motion_enabled {
        scaled_baseline_ms
    } else {
        FONT_SIZE_HUD_BASELINE_MS
    }
}

}
