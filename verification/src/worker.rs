//! The image worker's computations: scaling an image to a surface in one
//! of the scaling modes, the backdrop before and after its blur, the XRGB
//! pixels handed to the compositor, the color palette, and the images to
//! decode for a set of jobs.

use vstd::prelude::*;
use crate::encoding::{native_u32_bytes, u32_to_native_bytes};
use crate::image_ops::{
    ImageView, RgbaImage, Filter, ColorLayout, filled, filled_view, crop, cropped_view, overlay, overlaid,
    resize_exact, resize_within, resize_to_fill, resampled, resampled_within, resampled_to_fill,
    allocatable, resize_exact_fits, resize_within_fits, resize_to_fill_fits, cover_representable,
    can_resize_exact, can_resize_within, can_resize_to_fill, image_allocatable,
};
use crate::renderer::MonitorJob;
use crate::text::str_eq;

verus! {

/// How an image is fitted to a surface.
#[derive(Clone, Copy, Debug, PartialEq, Eq)]
pub enum ScaleMode {
    /// Scaled to cover the surface, cropped to it.
    Fill,
    /// Scaled to fit inside the surface, centered on black.
    Fit,
    /// Scaled to the size of the surface, ignoring the aspect ratio.
    Stretch,
    /// Unscaled, centered, cropped to the surface, on black.
    Center,
    /// Unscaled, repeated from the top-left corner, on black.
    Tile,
}

/// The mode a name selects; any name but `fit`, `stretch`, `center` and
/// `tile` selects `Fill`.
pub open spec fn mode_named(name: Seq<char>) -> ScaleMode {
    if name == "fit"@ {
        ScaleMode::Fit
    } else if name == "stretch"@ {
        ScaleMode::Stretch
    } else if name == "center"@ {
        ScaleMode::Center
    } else if name == "tile"@ {
        ScaleMode::Tile
    } else {
        ScaleMode::Fill
    }
}

impl ScaleMode {
    /// The mode a name selects.
    pub fn from_name(name: &str) -> (m: Self)
        ensures
            m == mode_named(name@),
    {
        if str_eq(name, "fit") {
            ScaleMode::Fit
        } else if str_eq(name, "stretch") {
            ScaleMode::Stretch
        } else if str_eq(name, "center") {
            ScaleMode::Center
        } else if str_eq(name, "tile") {
            ScaleMode::Tile
        } else {
            ScaleMode::Fill
        }
    }
}

/// Where a centered image is cut and placed: the part of the image kept,
/// and the position of its top-left corner on the surface.
#[derive(Clone, Copy, Debug, PartialEq, Eq)]
pub struct CenterPlacement {
    pub crop_x: u32,
    pub crop_y: u32,
    pub crop_w: u32,
    pub crop_h: u32,
    pub paste_x: u32,
    pub paste_y: u32,
}

/// The placement of an `img_w` by `img_h` image centered on a `w` by `h`
/// surface: a larger image loses equal margins, a smaller one gets them.
pub open spec fn center_placement_of(img_w: u32, img_h: u32, w: u32, h: u32) -> CenterPlacement {
    CenterPlacement {
        crop_x: if img_w > w { ((img_w - w) / 2) as u32 } else { 0 },
        crop_y: if img_h > h { ((img_h - h) / 2) as u32 } else { 0 },
        crop_w: if img_w < w { img_w } else { w },
        crop_h: if img_h < h { img_h } else { h },
        paste_x: if img_w < w { ((w - img_w) / 2) as u32 } else { 0 },
        paste_y: if img_h < h { ((h - img_h) / 2) as u32 } else { 0 },
    }
}

/// The placement of an `img_w` by `img_h` image centered on a `w` by `h`
/// surface.
pub fn center_placement(img_w: u32, img_h: u32, w: u32, h: u32) -> (p: CenterPlacement)
    ensures
        p == center_placement_of(img_w, img_h, w, h),
{
    CenterPlacement {
        crop_x: if img_w > w { (img_w - w) / 2 } else { 0 },
        crop_y: if img_h > h { (img_h - h) / 2 } else { 0 },
        crop_w: if img_w < w { img_w } else { w },
        crop_h: if img_h < h { img_h } else { h },
        paste_x: if img_w < w { (w - img_w) / 2 } else { 0 },
        paste_y: if img_h < h { (h - img_h) / 2 } else { 0 },
    }
}

/// The offset that centers `inner` pixels in `outer` pixels, zero when
/// `inner` is larger.
pub open spec fn centering_offset(outer: u32, inner: u32) -> u32 {
    if outer >= inner {
        ((outer - inner) / 2) as u32
    } else {
        0
    }
}

/// An opaque black pixel.
pub open spec fn black_pixel() -> Seq<u8> {
    seq![0u8, 0u8, 0u8, 255u8]
}

/// A black surface of `w` by `h` pixels.
pub open spec fn black_view(w: u32, h: u32) -> ImageView {
    filled_view(w, h, black_pixel())
}

/// `bottom` with `top` blended onto it at `(x, y)`.
pub open spec fn overlay_view(bottom: ImageView, top: ImageView, x: int, y: int) -> ImageView {
    ImageView {
        width: bottom.width,
        height: bottom.height,
        pixels: overlaid(bottom.pixels, bottom.width, bottom.height, top.pixels, top.width, top.height, x as i64, y as i64),
    }
}

/// How far `a` lies beyond `b`, or zero.
pub open spec fn gap(a: int, b: int) -> nat {
    if a > b {
        (a - b) as nat
    } else {
        0
    }
}

/// `bg` with copies of `top` blended onto row `y`, from column `x` on, every
/// `top.width` columns, from left to right.
pub open spec fn tile_row(bg: ImageView, top: ImageView, x: int, y: int) -> ImageView
    decreases gap(bg.width as int, x),
{
    if x >= bg.width || top.width == 0 {
        bg
    } else {
        tile_row(overlay_view(bg, top, x, y), top, x + top.width, y)
    }
}

/// Tiling a row keeps the size of the surface.
pub proof fn lemma_tile_row_size(bg: ImageView, top: ImageView, x: int, y: int)
    ensures
        tile_row(bg, top, x, y).width == bg.width,
        tile_row(bg, top, x, y).height == bg.height,
    decreases gap(bg.width as int, x),
{
    if !(x >= bg.width || top.width == 0) {
        lemma_tile_row_size(overlay_view(bg, top, x, y), top, x + top.width, y);
    }
}

/// `bg` with rows of copies of `top` from row `y` on, every `top.height`
/// rows, from top to bottom.
pub open spec fn tile_rows(bg: ImageView, top: ImageView, y: int) -> ImageView
    decreases gap(bg.height as int, y),
{
    if y >= bg.height || top.height == 0 {
        bg
    } else {
        proof {
            lemma_tile_row_size(bg, top, 0, y);
        }
        tile_rows(tile_row(bg, top, 0, y), top, y + top.height)
    }
}

/// An image scaled to a `w` by `h` surface in a mode.
pub open spec fn scaled_view(img: ImageView, mode: ScaleMode, w: u32, h: u32) -> ImageView {
    match mode {
        ScaleMode::Fit => {
            let (rw, rh, rp) = resampled_within(ColorLayout::Rgba8, img.width, img.height, img.pixels, w, h, Filter::Lanczos3);
            overlay_view(
                black_view(w, h),
                ImageView { width: rw, height: rh, pixels: rp },
                centering_offset(w, rw) as int,
                centering_offset(h, rh) as int,
            )
        },
        ScaleMode::Stretch => ImageView {
            width: w,
            height: h,
            pixels: resampled(img.pixels, img.width, img.height, w, h, Filter::Lanczos3),
        },
        ScaleMode::Center => {
            let p = center_placement_of(img.width, img.height, w, h);
            overlay_view(
                black_view(w, h),
                cropped_view(img, p.crop_x, p.crop_y, p.crop_w, p.crop_h),
                p.paste_x as int,
                p.paste_y as int,
            )
        },
        ScaleMode::Tile => tile_rows(black_view(w, h), img, 0),
        ScaleMode::Fill => {
            let (fw, fh, fp) = resampled_to_fill(img.pixels, img.width, img.height, w, h, Filter::Lanczos3);
            ImageView { width: fw, height: fh, pixels: fp }
        },
    }
}

fn black_surface(w: u32, h: u32) -> (img: RgbaImage)
    requires
        allocatable(4 * w * h),
    ensures
        img@ == black_view(w, h),
{
    let px: [u8; 4] = [0u8, 0u8, 0u8, 255u8];
    assert(px@ =~= black_pixel());
    filled(w, h, px)
}

/// Blends copies of `top` over the whole of `bg`, row after row.
fn tile_onto(bg: &mut RgbaImage, top: &RgbaImage)
    requires
        top@.width > 0,
        top@.height > 0,
    ensures
        final(bg)@ == tile_rows(old(bg)@, top@, 0),
{
    let w = bg.width();
    let h = bg.height();
    let tw = top.width();
    let th = top.height();
    let ghost start = bg@;
    let mut y: u32 = 0;
    while y < h
        invariant
            bg@.width == w,
            bg@.height == h,
            tw == top@.width,
            th == top@.height,
            tw > 0,
            th > 0,
            y <= h,
            tile_rows(bg@, top@, y as int) == tile_rows(start, top@, 0),
        decreases h - y,
    {
        let ghost row_start = bg@;
        let mut x: u32 = 0;
        while x < w
            invariant
                bg@.width == w,
                bg@.height == h,
                tw == top@.width,
                tw > 0,
                y < h,
                x <= w,
                tile_row(bg@, top@, x as int, y as int) == tile_row(row_start, top@, 0, y as int),
            decreases w - x,
        {
            let ghost before = bg@;
            overlay(bg, top, x as i64, y as i64);
            proof {
                assert(bg@ == overlay_view(before, top@, x as int, y as int));
                assert(tile_row(before, top@, x as int, y as int) == tile_row(bg@, top@, x + tw, y as int));
            }
            if (w - x) <= tw {
                proof {
                    assert(tile_row(bg@, top@, x + tw, y as int) == bg@);
                    assert(tile_row(bg@, top@, w as int, y as int) == bg@);
                }
                x = w;
            } else {
                x = x + tw;
            }
        }
        proof {
            lemma_tile_row_size(row_start, top@, 0, y as int);
            assert(tile_row(bg@, top@, w as int, y as int) == bg@);
            assert(tile_rows(row_start, top@, y as int) == tile_rows(bg@, top@, y + th));
        }
        if (h - y) <= th {
            proof {
                assert(tile_rows(bg@, top@, y + th) == bg@);
                assert(tile_rows(bg@, top@, h as int) == bg@);
            }
            y = h;
        } else {
            y = y + th;
        }
    }
}

/// Whether scaling a `width` by `height` image to a `w` by `h` surface in
/// `mode` stays within what a `Vec` can hold: the black surface, and the
/// buffers of the resampling the mode calls for.
pub open spec fn scale_fits(width: u32, height: u32, mode: ScaleMode, w: u32, h: u32) -> bool {
    match mode {
        ScaleMode::Fit => resize_within_fits(ColorLayout::Rgba8, width, height, w, h) && allocatable(4 * w * h),
        ScaleMode::Stretch => resize_exact_fits(width, height, w, h),
        ScaleMode::Center | ScaleMode::Tile => allocatable(4 * w * h),
        ScaleMode::Fill => resize_to_fill_fits(width, height, w, h),
    }
}

/// Whether `scale_fits` holds.
pub fn can_scale(width: u32, height: u32, mode: ScaleMode, w: u32, h: u32) -> (r: bool)
    ensures
        r == scale_fits(width, height, mode, w, h),
{
    let surface = image_allocatable(w, h);
    match mode {
        ScaleMode::Fit => can_resize_within(ColorLayout::Rgba8, width, height, w, h) && surface,
        ScaleMode::Stretch => can_resize_exact(width, height, w, h),
        ScaleMode::Center | ScaleMode::Tile => surface,
        ScaleMode::Fill => can_resize_to_fill(width, height, w, h),
    }
}

/// `img` scaled to a `w` by `h` surface in `mode`; it has the size of the
/// surface, in `Fill` mode when the covering image fits in `u32` sizes.
pub fn scale_image(img: &RgbaImage, mode: ScaleMode, w: u32, h: u32) -> (r: RgbaImage)
    requires
        scale_fits(img@.width, img@.height, mode, w, h),
        mode == ScaleMode::Tile ==> img@.width > 0 && img@.height > 0,
    ensures
        r@ == scaled_view(img@, mode, w, h),
        mode != ScaleMode::Fill || cover_representable(img@.width, img@.height, w, h) ==> r@.width
            == w && r@.height == h,
        mode == ScaleMode::Fit ==> r@ == fit_centered(img@, w, h),
{
    proof {
        lemma_fit_is_centered(img@, w, h);
    }
    proof {
        if mode != ScaleMode::Fill {
            lemma_scaled_size(img@, mode, w, h);
        }
    }
    match mode {
        ScaleMode::Fit => {
            let resized = resize_within(img, w, h, Filter::Lanczos3);
            let x = if w >= resized.width() { (w - resized.width()) / 2 } else { 0 };
            let y = if h >= resized.height() { (h - resized.height()) / 2 } else { 0 };
            let mut bg = black_surface(w, h);
            overlay(&mut bg, &resized, x as i64, y as i64);
            bg
        },
        ScaleMode::Stretch => resize_exact(img, w, h, Filter::Lanczos3),
        ScaleMode::Center => {
            let p = center_placement(img.width(), img.height(), w, h);
            let mut bg = black_surface(w, h);
            let cropped = crop(img, p.crop_x, p.crop_y, p.crop_w, p.crop_h);
            overlay(&mut bg, &cropped, p.paste_x as i64, p.paste_y as i64);
            bg
        },
        ScaleMode::Tile => {
            let mut bg = black_surface(w, h);
            tile_onto(&mut bg, img);
            bg
        },
        ScaleMode::Fill => resize_to_fill(img, w, h, Filter::Lanczos3),
    }
}

/// The value of an XRGB pixel with the given red, green and blue.
pub open spec fn xrgb_value(r: u8, g: u8, b: u8) -> u32 {
    (r as int * 65536 + g as int * 256 + b as int) as u32
}

/// The XRGB pixels of RGBA bytes: each whole group of four bytes becomes
/// the word `0x00RRGGBB` in the byte order of the hardware; a trailing
/// partial group is dropped.
pub open spec fn xrgb_bytes(rgba: Seq<u8>) -> Seq<u8> {
    Seq::new(
        (4 * (rgba.len() / 4)) as nat,
        |k: int|
            native_u32_bytes(
                xrgb_value(rgba[4 * (k / 4)], rgba[4 * (k / 4) + 1], rgba[4 * (k / 4) + 2]),
            )[k % 4],
    )
}

/// The XRGB pixels of RGBA bytes, in the layout the compositor reads.
pub fn rgba_to_xrgb(rgba: &[u8]) -> (out: Vec<u8>)
    ensures
        out@ == xrgb_bytes(rgba@),
{
    let len = rgba.len();
    let n = len / 4;
    let mut out: Vec<u8> = Vec::with_capacity(len - len % 4);
    let mut i: usize = 0;
    while i < n
        invariant
            len == rgba@.len(),
            n == len / 4,
            i <= n,
            out@.len() == 4 * i,
            forall|k: int| 0 <= k < out@.len() ==> out@[k] == xrgb_bytes(rgba@)[k],
        decreases n - i,
    {
        assert(4 * i + 3 < rgba@.len());
        let r = rgba[4 * i] as u32;
        let g = rgba[4 * i + 1] as u32;
        let b = rgba[4 * i + 2] as u32;
        assert(((r << 16) | (g << 8) | b) == r * 65536 + g * 256 + b) by (bit_vector)
            requires
                r < 256,
                g < 256,
                b < 256,
        ;
        let pixel = (r << 16) | (g << 8) | b;
        let bytes = u32_to_native_bytes(pixel);
        proof {
            crate::encoding::lemma_native_u32_bytes(pixel, pixel);
        }
        out.push(bytes[0]);
        out.push(bytes[1]);
        out.push(bytes[2]);
        out.push(bytes[3]);
        proof {
            assert forall|k: int| 0 <= k < out@.len() implies out@[k] == xrgb_bytes(rgba@)[k] by {
                if k >= 4 * i {
                    assert(k / 4 == i as int);
                    assert(k % 4 == k - 4 * i);
                    assert(pixel == xrgb_value(rgba@[4 * (k / 4)], rgba@[4 * (k / 4) + 1], rgba@[4 * (k / 4) + 2]));
                }
            }
        }
        i = i + 1;
    }
    assert(out@ =~= xrgb_bytes(rgba@));
    out
}

/// The XRGB pixels of the wallpaper of a `w` by `h` surface: the image
/// scaled in the mode named `mode`, four bytes for each pixel of the
/// surface.
pub fn render_wallpaper(img: &RgbaImage, mode: &str, w: u32, h: u32) -> (out: Vec<u8>)
    requires
        scale_fits(img@.width, img@.height, mode_named(mode@), w, h),
        mode_named(mode@) == ScaleMode::Tile ==> img@.width > 0 && img@.height > 0,
    ensures
        out@ == xrgb_bytes(scaled_view(img@, mode_named(mode@), w, h).pixels),
        out@.len() == 4 * scaled_view(img@, mode_named(mode@), w, h).width as int * scaled_view(
            img@,
            mode_named(mode@),
            w,
            h,
        ).height as int,
        mode_named(mode@) != ScaleMode::Fill || cover_representable(img@.width, img@.height, w, h)
            ==> out@.len() == 4 * w as int * h as int,
        mode_named(mode@) == ScaleMode::Fit ==> out@ == xrgb_bytes(fit_centered(img@, w, h).pixels),
{
    let scaled = scale_image(img, ScaleMode::from_name(mode), w, h);
    let bytes = scaled.as_bytes();
    proof {
        let n: int = scaled@.width as int * scaled@.height as int;
        assert(4 * scaled@.width as int * scaled@.height as int == 4 * n) by (nonlinear_arith)
            requires
                n == scaled@.width as int * scaled@.height as int,
        ;
        assert((4 * n) / 4 == n);
    }
    rgba_to_xrgb(bytes)
}

/// The image a backdrop of `w` by `h` pixels is blurred from: scaled in the
/// mode named `mode` to half the size, which makes the blur cheaper.
pub fn backdrop_base(img: &RgbaImage, mode: &str, w: u32, h: u32) -> (r: RgbaImage)
    requires
        scale_fits(img@.width, img@.height, mode_named(mode@), w / 2, h / 2),
        mode_named(mode@) == ScaleMode::Tile ==> img@.width > 0 && img@.height > 0,
    ensures
        r@ == scaled_view(img@, mode_named(mode@), w / 2, h / 2),
        mode_named(mode@) != ScaleMode::Fill || cover_representable(img@.width, img@.height, w / 2, h / 2)
            ==> r@.width == w / 2 && r@.height == h / 2,
{
    scale_image(img, ScaleMode::from_name(mode), w / 2, h / 2)
}

/// The XRGB pixels of a backdrop of `w` by `h` pixels: the blurred image
/// scaled back up to the full size.
pub fn finish_backdrop(blurred: &RgbaImage, w: u32, h: u32) -> (out: Vec<u8>)
    requires
        resize_exact_fits(blurred@.width, blurred@.height, w, h),
    ensures
        out@ == xrgb_bytes(resampled(blurred@.pixels, blurred@.width, blurred@.height, w, h, Filter::Lanczos3)),
        out@.len() == 4 * w as int * h as int,
{
    let full = resize_exact(blurred, w, h, Filter::Lanczos3);
    let bytes = full.as_bytes();
    proof {
        let n: int = w as int * h as int;
        assert(4 * w as int * h as int == 4 * n) by (nonlinear_arith)
            requires
                n == w as int * h as int,
        ;
        assert((4 * n) / 4 == n);
    }
    rgba_to_xrgb(bytes)
}

/// The palette that `color_thief::get_palette` gives for RGBA pixels, if
/// any.
pub uninterp spec fn rgba_palette(pixels: Seq<u8>, quality: u8, max_colors: u8) -> Option<Seq<(u8, u8, u8)>>;

/// `color_thief::get_palette` on RGBA pixels: the named palette, with at
/// most `max_colors` colors, or none when the median cut fails.
#[verifier::external_body]
fn palette_of(pixels: &[u8], quality: u8, max_colors: u8) -> (r: Option<Vec<(u8, u8, u8)>>)
    requires
        1 <= quality <= 10,
        max_colors > 1,
        pixels@.len() <= 4 * 800 * 600,
    ensures
        match r {
            Some(p) => rgba_palette(pixels@, quality, max_colors) == Some(p@) && p@.len() <= max_colors,
            None => rgba_palette(pixels@, quality, max_colors) is None,
        },
{
    match color_thief::get_palette(pixels, color_thief::ColorFormat::Rgba, quality, max_colors) {
        Ok(colors) => Some(colors.iter().map(|c| (c.r, c.g, c.b)).collect()),
        Err(_) => None,
    }
}

/// The palette of an image: at most five dominant colors of the image scaled
/// to fit 800 by 600 pixels, none when they cannot be found.
pub fn extract_colors(img: &RgbaImage) -> (colors: Vec<(u8, u8, u8)>)
    requires
        resize_within_fits(ColorLayout::Rgba8, img@.width, img@.height, 800, 600),
    ensures
        ({
            let (sw, sh, sp) = resampled_within(ColorLayout::Rgba8, img@.width, img@.height, img@.pixels, 800, 600, Filter::Nearest);
            colors@ == match rgba_palette(sp, 5, 5) {
                Some(p) => p,
                None => Seq::empty(),
            }
        }),
        colors@.len() <= 5,
{
    let small = resize_within(img, 800, 600, Filter::Nearest);
    let w = small.width();
    let h = small.height();
    assert(4 * w as int * h as int <= 4 * 800 * 600) by (nonlinear_arith)
        requires
            w <= 800,
            h <= 600,
    ;
    match palette_of(small.as_bytes(), 5, 5) {
        Some(p) => p,
        None => Vec::new(),
    }
}

/// The paths of a sequence, each once, in the order of first occurrence.
pub open spec fn first_occurrences(paths: Seq<Seq<char>>) -> Seq<Seq<char>>
    decreases paths.len(),
{
    if paths.len() == 0 {
        Seq::empty()
    } else {
        let earlier = first_occurrences(paths.drop_last());
        if earlier.contains(paths.last()) {
            earlier
        } else {
            earlier.push(paths.last())
        }
    }
}

/// The image paths of the jobs.
pub open spec fn job_paths(jobs: Seq<MonitorJob>) -> Seq<Seq<char>> {
    jobs.map_values(|j: MonitorJob| j.path@)
}

/// The views of a sequence of strings.
pub open spec fn string_views(s: Seq<String>) -> Seq<Seq<char>> {
    s.map_values(|p: String| p@)
}

/// The images to decode for a set of jobs: each path once, in the order of
/// first use.
pub fn distinct_paths(jobs: &[MonitorJob]) -> (paths: Vec<String>)
    ensures
        string_views(paths@) == first_occurrences(job_paths(jobs@)),
{
    let mut paths: Vec<String> = Vec::new();
    let mut i: usize = 0;
    while i < jobs.len()
        invariant
            i <= jobs@.len(),
            string_views(paths@) == first_occurrences(job_paths(jobs@.take(i as int))),
        decreases jobs@.len() - i,
    {
        let path = &jobs[i].path;
        let mut seen = false;
        let mut k: usize = 0;
        while k < paths.len()
            invariant
                k <= paths@.len(),
                seen == exists|j: int| 0 <= j < k && paths@[j]@ == path@,
            decreases paths@.len() - k,
        {
            if paths[k] == *path {
                seen = true;
            }
            k = k + 1;
        }
        proof {
            let prefix = job_paths(jobs@.take(i as int));
            let next = job_paths(jobs@.take(i + 1));
            assert(next.drop_last() =~= prefix);
            assert(next.last() == path@);
            let views = string_views(paths@);
            if seen {
                let j = choose|j: int| 0 <= j < paths@.len() && paths@[j]@ == path@;
                assert(views[j] == path@);
            } else {
                assert forall|j: int| 0 <= j < views.len() implies views[j] != path@ by {
                    assert(views[j] == paths@[j]@);
                }
            }
        }
        let ghost before = paths@;
        if !seen {
            paths.push(path.clone());
            assert(string_views(paths@) =~= string_views(before).push(path@));
        }
        i = i + 1;
    }
    assert(jobs@.take(jobs@.len() as int) =~= jobs@);
    paths
}

/// An image fitted to a `w` by `h` surface: resampled to the largest size of
/// its aspect ratio within the surface and blended onto black with equal
/// margins left and right, and above and below (the left and top ones the
/// smaller by a pixel when the spare room is odd); flush with the top-left
/// corner where it is larger than the surface.
pub open spec fn fit_centered(img: ImageView, w: u32, h: u32) -> ImageView {
    let (rw, rh, rp) = resampled_within(ColorLayout::Rgba8, img.width, img.height, img.pixels, w, h, Filter::Lanczos3);
    let left: int = if rw <= w { (w - rw) / 2 } else { 0 };
    let top: int = if rh <= h { (h - rh) / 2 } else { 0 };
    overlaid_on_black(w, h, ImageView { width: rw, height: rh, pixels: rp }, left, top)
}

/// `top` blended onto a black `w` by `h` surface at `(x, y)`.
pub open spec fn overlaid_on_black(w: u32, h: u32, top: ImageView, x: int, y: int) -> ImageView {
    ImageView {
        width: w,
        height: h,
        pixels: overlaid(
            Seq::new((4 * w as int * h as int) as nat, |k: int| if k % 4 == 3 { 255u8 } else { 0u8 }),
            w,
            h,
            top.pixels,
            top.width,
            top.height,
            x as i64,
            y as i64,
        ),
    }
}

/// In `Fit` mode the fitted image is centered on black: its left margin is
/// half the spare width, rounded down, and its top margin half the spare
/// height, so the margins on either side differ by at most one pixel.
pub proof fn lemma_fit_is_centered(img: ImageView, w: u32, h: u32)
    ensures
        scaled_view(img, ScaleMode::Fit, w, h) == fit_centered(img, w, h),
        ({
            let (rw, rh, rp) = resampled_within(ColorLayout::Rgba8, img.width, img.height, img.pixels, w, h, Filter::Lanczos3);
            let left: int = if rw <= w { (w - rw) / 2 } else { 0 };
            let top: int = if rh <= h { (h - rh) / 2 } else { 0 };
            &&& rw <= w ==> 0 <= (w - rw - left) - left <= 1
            &&& rh <= h ==> 0 <= (h - rh - top) - top <= 1
        }),
{
    let (rw, rh, rp) = resampled_within(ColorLayout::Rgba8, img.width, img.height, img.pixels, w, h, Filter::Lanczos3);
    let black = black_view(w, h);
    let want = Seq::new((4 * w as int * h as int) as nat, |k: int| if k % 4 == 3 { 255u8 } else { 0u8 });
    assert forall|k: int| 0 <= k < black.pixels.len() implies black.pixels[k] == want[k] by {
        assert(0 <= k % 4 < 4);
    }
    assert(black.pixels =~= want);
}

/// Tiling keeps the size of the surface.
pub proof fn lemma_tile_rows_size(bg: ImageView, top: ImageView, y: int)
    ensures
        tile_rows(bg, top, y).width == bg.width,
        tile_rows(bg, top, y).height == bg.height,
    decreases gap(bg.height as int, y),
{
    if !(y >= bg.height || top.height == 0) {
        lemma_tile_row_size(bg, top, 0, y);
        lemma_tile_rows_size(tile_row(bg, top, 0, y), top, y + top.height);
    }
}

/// In every mode but `Fill` the scaled image has the size of the surface.
pub proof fn lemma_scaled_size(img: ImageView, mode: ScaleMode, w: u32, h: u32)
    requires
        mode != ScaleMode::Fill,
    ensures
        scaled_view(img, mode, w, h).width == w,
        scaled_view(img, mode, w, h).height == h,
{
    if mode == ScaleMode::Tile {
        lemma_tile_rows_size(black_view(w, h), img, 0);
    }
}

/// A centered image keeps a part that lies inside the image and, placed at
/// the paste position, inside the surface; the margins left and right (and
/// above and below) differ by at most one pixel.
pub proof fn lemma_center_placement_fits(img_w: u32, img_h: u32, w: u32, h: u32)
    ensures
        ({
            let p = center_placement_of(img_w, img_h, w, h);
            &&& p.crop_x + p.crop_w <= img_w
            &&& p.crop_y + p.crop_h <= img_h
            &&& p.paste_x + p.crop_w <= w
            &&& p.paste_y + p.crop_h <= h
            &&& 0 <= (w - p.crop_w - p.paste_x) - p.paste_x <= 1
            &&& 0 <= (h - p.crop_h - p.paste_y) - p.paste_y <= 1
            &&& p.crop_w == if img_w < w { img_w } else { w }
            &&& p.crop_h == if img_h < h { img_h } else { h }
            &&& 0 <= (img_w - p.crop_w - p.crop_x) - p.crop_x <= 1
            &&& 0 <= (img_h - p.crop_h - p.crop_y) - p.crop_y <= 1
            &&& (p.crop_x == 0 || p.paste_x == 0)
            &&& (p.crop_y == 0 || p.paste_y == 0)
        }),
{
}

/// The XRGB word of a pixel holds its red, green and blue bytes, from the
/// high byte down, and nothing above them.
pub proof fn lemma_xrgb_value_holds_channels(r: u8, g: u8, b: u8)
    ensures
        xrgb_value(r, g, b) < 0x100_0000,
        xrgb_value(r, g, b) / 65536 == r,
        (xrgb_value(r, g, b) / 256) % 256 == g,
        xrgb_value(r, g, b) % 256 == b,
{
    let v = r as int * 65536 + g as int * 256 + b as int;
    assert(v < 0x100_0000);
    assert(xrgb_value(r, g, b) == v);
    assert(v / 65536 == r) by (nonlinear_arith)
        requires
            v == r as int * 65536 + g as int * 256 + b as int,
            0 <= g < 256,
            0 <= b < 256,
            0 <= r,
    ;
    assert((v / 256) % 256 == g) by (nonlinear_arith)
        requires
            v == r as int * 65536 + g as int * 256 + b as int,
            0 <= g < 256,
            0 <= b < 256,
            0 <= r,
    ;
    assert(v % 256 == b) by (nonlinear_arith)
        requires
            v == r as int * 65536 + g as int * 256 + b as int,
            0 <= b < 256,
            0 <= r,
            0 <= g,
    ;
}

/// Each path occurs once among the images to decode, and they are exactly
/// the paths of the jobs.
pub proof fn lemma_first_occurrences(paths: Seq<Seq<char>>)
    ensures
        first_occurrences(paths).no_duplicates(),
        forall|p: Seq<char>| first_occurrences(paths).contains(p) <==> paths.contains(p),
    decreases paths.len(),
{
    if paths.len() > 0 {
        let rest = paths.drop_last();
        lemma_first_occurrences(rest);
        let earlier = first_occurrences(rest);
        assert forall|p: Seq<char>| first_occurrences(paths).contains(p) <==> paths.contains(p) by {
            if paths.contains(p) && p != paths.last() {
                let k = choose|k: int| 0 <= k < paths.len() && paths[k] == p;
                assert(rest[k] == p);
            }
            if rest.contains(p) {
                let k = choose|k: int| 0 <= k < rest.len() && rest[k] == p;
                assert(paths[k] == p);
            }
            if !earlier.contains(paths.last()) {
                let pushed = earlier.push(paths.last());
                assert(pushed[pushed.len() - 1] == paths.last());
                if earlier.contains(p) {
                    let k = choose|k: int| 0 <= k < earlier.len() && earlier[k] == p;
                    assert(pushed[k] == p);
                }
                if pushed.contains(p) && p != paths.last() {
                    let k = choose|k: int| 0 <= k < pushed.len() && pushed[k] == p;
                    assert(earlier[k] == p);
                }
            }
            assert(paths[paths.len() - 1] == paths.last());
        }
    }
}

} // verus!
