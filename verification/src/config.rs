//! The user's configuration: the default scaling mode and blur radius.

use vstd::prelude::*;

verus! {

/// The default scaling mode and blur radius.
#[derive(Debug, Clone)]
pub struct Config {
    pub mode: String,
    pub blur: u32,
}

/// The mode used when the configuration names none: `fill`.
pub fn default_mode() -> (m: String)
    ensures
        m@ == "fill"@,
{
    String::from_str("fill")
}

/// The smallest blur radius a wallpaper may be given.
pub const MIN_BLUR: u32 = 1;

/// The largest blur radius a wallpaper may be given.
pub const MAX_BLUR: u32 = 30;

/// Whether `blur` lies in the range a wallpaper's blur radius is tuned in,
/// 1 to 30.
pub open spec fn blur_in_range(blur: u32) -> bool {
    MIN_BLUR <= blur && blur <= MAX_BLUR
}

/// Whether `blur` is an acceptable blur radius, from 1 to 30.
pub fn is_valid_blur(blur: u32) -> (r: bool)
    ensures
        r == blur_in_range(blur),
{
    MIN_BLUR <= blur && blur <= MAX_BLUR
}

/// The blur radius used when the configuration names none: 8.
pub fn default_blur() -> (b: u32)
    ensures
        b == 8,
        blur_in_range(b),
{
    8
}

} // verus!
