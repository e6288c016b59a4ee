//! The `set` subcommand: checking its arguments, naming the cached files,
//! choosing the files to clean up, and the request sent to the daemon.

use vstd::prelude::*;
use vstd::string::StrSliceExecFns;
use crate::config::{Config, blur_in_range, is_valid_blur};
use crate::ipc::Command;
use crate::image_ops::{
    Filter, SourceImage, resampled_within, resize_source_within, resize_within_fits, source_wf,
};
use crate::text::{str_ends_with, str_eq, str_starts_with, has_prefix, has_suffix};

verus! {

/// The largest width or height a source image is cached at; larger images
/// are scaled down to fit.
pub const MAX_SOURCE_DIMENSION: u32 = 3840;

/// Whether `c` may appear in a monitor name: an ASCII letter or digit, a
/// hyphen or an underscore.
pub open spec fn monitor_name_char(c: char) -> bool {
    ('a' <= c && c <= 'z') || ('A' <= c && c <= 'Z') || ('0' <= c && c <= '9') || c == '-' || c == '_'
}

/// Whether every character of `name` may appear in a monitor name.
pub open spec fn valid_monitor_name(name: Seq<char>) -> bool {
    forall|i: int| 0 <= i < name.len() ==> monitor_name_char(#[trigger] name[i])
}

/// Whether `name` is acceptable as a monitor name: only ASCII letters,
/// digits, hyphens and underscores.
pub fn is_valid_monitor_name(name: &str) -> (r: bool)
    ensures
        r == valid_monitor_name(name@),
{
    let n = name.unicode_len();
    let mut i: usize = 0;
    while i < n
        invariant
            n == name@.len(),
            i <= n,
            forall|j: int| 0 <= j < i ==> monitor_name_char(#[trigger] name@[j]),
        decreases n - i,
    {
        let c = name.get_char(i);
        let ok = ('a' <= c && c <= 'z') || ('A' <= c && c <= 'Z') || ('0' <= c && c <= '9') || c
            == '-' || c == '_';
        if !ok {
            return false;
        }
        i = i + 1;
    }
    true
}

/// The mode and blur of a `set` request: the given ones, else those of the
/// configuration.
pub fn resolve_mode_and_blur(mode: Option<String>, blur: Option<u32>, config: &Config) -> (r: (String, u32))
    ensures
        r.0@ == match mode {
            Some(m) => m@,
            None => config.mode@,
        },
        r.1 == match blur {
            Some(b) => b,
            None => config.blur,
        },
{
    let m = match mode {
        Some(m) => m,
        None => config.mode.clone(),
    };
    let b = match blur {
        Some(b) => b,
        None => config.blur,
    };
    (m, b)
}

/// The name of the cached copy of the wallpaper: `{monitor}.png`, or
/// `current.png` for every monitor.
pub open spec fn cache_file_name_spec(monitor: Option<Seq<char>>) -> Seq<char> {
    match monitor {
        Some(m) => m + ".png"@,
        None => "current.png"@,
    }
}

/// The name of the metadata file of the wallpaper: `{monitor}.toml`, or
/// `current.toml` for every monitor.
pub open spec fn meta_file_name_spec(monitor: Option<Seq<char>>) -> Seq<char> {
    match monitor {
        Some(m) => m + ".toml"@,
        None => "current.toml"@,
    }
}

/// The view of an optional monitor name.
pub open spec fn monitor_view(monitor: Option<String>) -> Option<Seq<char>> {
    match monitor {
        Some(m) => Some(m@),
        None => None,
    }
}

/// The name of the cached copy of the wallpaper.
pub fn cache_file_name(monitor: &Option<String>) -> (name: String)
    ensures
        name@ == cache_file_name_spec(monitor_view(*monitor)),
{
    match monitor {
        Some(m) => {
            let mut name = m.clone();
            name.append(".png");
            name
        },
        None => String::from_str("current.png"),
    }
}

/// The name of the metadata file of the wallpaper.
pub fn meta_file_name(monitor: &Option<String>) -> (name: String)
    ensures
        name@ == meta_file_name_spec(monitor_view(*monitor)),
{
    match monitor {
        Some(m) => {
            let mut name = m.clone();
            name.append(".toml");
            name
        },
        None => String::from_str("current.toml"),
    }
}

/// The name the cached copy is written under before it replaces the old
/// one: `{cache_file}.tmp`.
pub fn temporary_file_name(cache_file: &str) -> (name: String)
    ensures
        name@ == cache_file@ + ".tmp"@,
{
    let mut name = String::from_str(cache_file);
    name.append(".tmp");
    name
}

/// Whether a source image of `width` by `height` pixels is scaled down
/// before it is cached.
pub fn exceeds_max_dimension(width: u32, height: u32) -> (r: bool)
    ensures
        r == (width > MAX_SOURCE_DIMENSION || height > MAX_SOURCE_DIMENSION),
{
    width > MAX_SOURCE_DIMENSION || height > MAX_SOURCE_DIMENSION
}

/// The copy of a decoded source image that is cached: the image itself
/// when it fits within `MAX_SOURCE_DIMENSION` each way, else the image
/// resampled with Lanczos3 to the largest size of its aspect ratio that
/// fits, in the same layout.
pub fn cached_source(img: SourceImage) -> (r: SourceImage)
    requires
        source_wf(img.layout, img.width, img.height, img.bytes@),
        resize_within_fits(img.layout, img.width, img.height, MAX_SOURCE_DIMENSION, MAX_SOURCE_DIMENSION),
    ensures
        source_wf(r.layout, r.width, r.height, r.bytes@),
        r.layout == img.layout,
        r.width <= MAX_SOURCE_DIMENSION,
        r.height <= MAX_SOURCE_DIMENSION,
        (img.width > MAX_SOURCE_DIMENSION || img.height > MAX_SOURCE_DIMENSION) ==> (
        r.width,
        r.height,
        r.bytes@,
        ) == resampled_within(
            img.layout,
            img.width,
            img.height,
            img.bytes@,
            MAX_SOURCE_DIMENSION,
            MAX_SOURCE_DIMENSION,
            Filter::Lanczos3,
        ),
        !(img.width > MAX_SOURCE_DIMENSION || img.height > MAX_SOURCE_DIMENSION) ==> r == img,
{
    if exceeds_max_dimension(img.width, img.height) {
        resize_source_within(img, MAX_SOURCE_DIMENSION, MAX_SOURCE_DIMENSION, Filter::Lanczos3)
    } else {
        img
    }
}

/// Whether a file of the cache directory belongs to a single monitor and is
/// removed when a wallpaper is set for every monitor: it is not one of the
/// shared files (`current.*`, `colors.toml`, `state.json`) and it is a
/// `.png`, `.toml` or `.raw` file.
pub open spec fn stale_monitor_file(name: Seq<char>) -> bool {
    &&& !has_prefix(name, "current."@)
    &&& name != "colors.toml"@
    &&& name != "state.json"@
    &&& (has_suffix(name, ".png"@) || has_suffix(name, ".toml"@) || has_suffix(name, ".raw"@))
}

/// Whether a file of the cache directory is removed when a wallpaper is set
/// for every monitor.
pub fn is_stale_monitor_file(name: &str) -> (r: bool)
    ensures
        r == stale_monitor_file(name@),
{
    if str_starts_with(name, "current.") || str_eq(name, "colors.toml") || str_eq(name, "state.json") {
        return false;
    }
    str_ends_with(name, ".png") || str_ends_with(name, ".toml") || str_ends_with(name, ".raw")
}

/// The monitor named in the request to the daemon: the given one, or the
/// empty name for every monitor.
pub fn request_monitor(monitor: &Option<String>) -> (r: String)
    ensures
        r@ == match monitor_view(*monitor) {
            Some(m) => m,
            None => Seq::empty(),
        },
{
    match monitor {
        Some(m) => m.clone(),
        None => String::new(),
    }
}

/// The request that shows the cached copy `image` on the monitor, or
/// `None` when the blur radius lies outside 1 to 30: such a request is
/// never sent.
pub fn set_request(image: String, mode: String, monitor: &Option<String>, blur: u32) -> (c: Option<
    Command,
>)
    ensures
        c is None <==> !blur_in_range(blur),
        c matches Some(cmd) ==> cmd matches Command::SetWallpaper {
            image: i,
            mode: m,
            monitor: mon,
            blur: b,
        } && i == image && m == mode && b == blur && mon@ == match monitor_view(*monitor) {
            Some(n) => n,
            None => Seq::empty(),
        },
{
    if !is_valid_blur(blur) {
        return None;
    }
    Some(Command::SetWallpaper { image, mode, monitor: request_monitor(monitor), blur })
}

} // verus!
