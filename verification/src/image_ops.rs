//! Images as plain bytes (RGBA images, and source images in any integer
//! layout), and the operations on them: those the `image` crate computes
//! (resampling, alpha compositing), called through wrappers, and those
//! proved here (filling, cropping, layout conversions).

use vstd::prelude::*;
use image::ImageBuffer as Buf;
use image::DynamicImage::{
    ImageLuma16, ImageLuma8, ImageLumaA16, ImageLumaA8, ImageRgb16, ImageRgb8, ImageRgba16, ImageRgba8,
};
use image::imageops::FilterType::{Lanczos3, Nearest};
use crate::image_ops::ColorLayout::{L8, La8, Rgb8, Rgba8, L16, La16, Rgb16, Rgba16};
use crate::encoding::{native_u16_bytes, u16_from_native_bytes};

verus! {

/// What an image holds: its size and its pixels, four bytes each (red,
/// green, blue, alpha), row after row.
pub struct ImageView {
    pub width: u32,
    pub height: u32,
    pub pixels: Seq<u8>,
}

/// Whether the pixel bytes fill exactly the size of the image.
pub open spec fn view_wf(v: ImageView) -> bool {
    v.pixels.len() == 4 * v.width as int * v.height as int
}

/// Whether a buffer of `bytes` bytes may be allocated: a `Vec` holds at
/// most `isize::MAX` bytes and panics when asked for more.
pub open spec fn allocatable(bytes: int) -> bool {
    bytes <= isize::MAX
}

/// `x`, or one when `x` is zero.
pub open spec fn at_least_one(x: u32) -> int {
    if x == 0 {
        1
    } else {
        x as int
    }
}

/// Whether `image::imageops::resize` can allocate what it needs to resample
/// a `width` by `height` image to `new_width` by `new_height`: the result,
/// four bytes per pixel, and, unless the source is empty or already has the
/// asked size, the intermediate pass of four 32-bit floats per pixel over
/// `width` by `new_height` pixels.
pub open spec fn resize_exact_fits(width: u32, height: u32, new_width: u32, new_height: u32) -> bool {
    &&& allocatable(4 * new_width * new_height)
    &&& (width == 0 || height == 0 || (new_width == width && new_height == height) || allocatable(
        16 * width * new_height,
    ))
}

/// Whether `DynamicImage::resize` can allocate what it needs to resample a
/// `width` by `height` image of the given layout into `new_width` by
/// `new_height`: the size it picks is at most the bounds, a zero bound
/// counting as one, so its buffers are bounded by those for the bounds: the
/// result in the image's layout, and, unless the image is empty, the
/// intermediate pass of four 32-bit floats per pixel over `width` by the
/// height.
pub open spec fn resize_within_fits(
    layout: ColorLayout,
    width: u32,
    height: u32,
    new_width: u32,
    new_height: u32,
) -> bool {
    &&& allocatable(bytes_per_pixel(layout) * at_least_one(new_width) * at_least_one(new_height))
    &&& (width == 0 || height == 0 || allocatable(16 * width * at_least_one(new_height)))
}

/// A bound on the width of the image that `DynamicImage::resize_to_fill`
/// resamples a `width` by `height` image to before cropping it to
/// `new_width` by `new_height`: the larger of `new_width` and one more than
/// the width, rounded down, that covers the bounds with the aspect ratio,
/// and no more than `u32::MAX`.
pub open spec fn cover_width(width: u32, height: u32, new_width: u32, new_height: u32) -> int {
    let covering: int = width as int * new_height as int / height as int + 1;
    let w = if covering > new_width {
        covering
    } else {
        new_width as int
    };
    if w > u32::MAX {
        u32::MAX as int
    } else {
        w
    }
}

/// A bound on the height of that image, likewise.
pub open spec fn cover_height(width: u32, height: u32, new_width: u32, new_height: u32) -> int {
    cover_width(height, width, new_height, new_width)
}

/// Whether `DynamicImage::resize_to_fill` can allocate what it needs and
/// returns. For an image with pixels: the intermediate pass over `width` by
/// the covering height, and the covering image. For an image empty one way
/// the covering image may be one pixel by `u32::MAX`. An image empty both
/// ways is covered by one pixel, which is cropped at an offset of one minus
/// the smaller bound, or one minus the width when the bounds are equal:
/// that bound must be at most one.
pub open spec fn resize_to_fill_fits(width: u32, height: u32, new_width: u32, new_height: u32) -> bool {
    if width == 0 && height == 0 {
        if new_width > new_height {
            new_height <= 1
        } else {
            new_width <= 1
        }
    } else if width == 0 || height == 0 {
        allocatable(4 * u32::MAX)
    } else {
        &&& allocatable(16 * width * cover_height(width, height, new_width, new_height))
        &&& allocatable(
            4 * cover_width(width, height, new_width, new_height) * cover_height(
                width,
                height,
                new_width,
                new_height,
            ),
        )
    }
}

/// Whether a `width` by `height` image with pixels, scaled with its aspect
/// ratio to cover `new_width` by `new_height`, has both dimensions within
/// `u32::MAX`; then `DynamicImage::resize_to_fill` gives exactly the asked
/// size.
pub open spec fn cover_representable(width: u32, height: u32, new_width: u32, new_height: u32) -> bool {
    &&& width > 0
    &&& height > 0
    &&& width * new_height <= u32::MAX * height
    &&& height * new_width <= u32::MAX * width
}

/// Whether `factor * a * b` bytes may be allocated.
fn allocatable_product(factor: u64, a: u64, b: u64) -> (r: bool)
    requires
        factor <= 16,
        a <= 0x1_0000_0000,
        b <= 0x1_0000_0000,
    ensures
        r == allocatable(factor * a * b),
{
    let f = factor as u128;
    let x = a as u128;
    let y = b as u128;
    assert(x * y <= 0x1_0000_0000 * 0x1_0000_0000) by (nonlinear_arith)
        requires
            x <= 0x1_0000_0000,
            y <= 0x1_0000_0000,
    ;
    let xy = x * y;
    assert(f * xy <= 16 * (0x1_0000_0000 * 0x1_0000_0000)) by (nonlinear_arith)
        requires
            f <= 16,
            xy <= 0x1_0000_0000 * 0x1_0000_0000,
    ;
    let n = f * xy;
    assert(n == factor * a * b) by (nonlinear_arith)
        requires
            n == f * xy,
            xy == x * y,
            f == factor,
            x == a,
            y == b,
    ;
    n <= isize::MAX as u128
}

/// The value of `at_least_one`.
fn at_least_one_of(x: u32) -> (r: u64)
    ensures
        r == at_least_one(x),
        r <= 0x1_0000_0000,
{
    if x == 0 {
        1
    } else {
        x as u64
    }
}

/// Whether the pixels of a `width` by `height` image may be allocated.
pub fn image_allocatable(width: u32, height: u32) -> (r: bool)
    ensures
        r == allocatable(4 * width * height),
{
    allocatable_product(4, width as u64, height as u64)
}

/// Whether `resize_exact_fits` holds.
pub fn can_resize_exact(width: u32, height: u32, new_width: u32, new_height: u32) -> (r: bool)
    ensures
        r == resize_exact_fits(width, height, new_width, new_height),
{
    let out = allocatable_product(4, new_width as u64, new_height as u64);
    let pass = width == 0 || height == 0 || (new_width == width && new_height == height)
        || allocatable_product(16, width as u64, new_height as u64);
    out && pass
}

/// Whether `resize_within_fits` holds.
pub fn can_resize_within(
    layout: ColorLayout,
    width: u32,
    height: u32,
    new_width: u32,
    new_height: u32,
) -> (r: bool)
    ensures
        r == resize_within_fits(layout, width, height, new_width, new_height),
{
    let bw = at_least_one_of(new_width);
    let bh = at_least_one_of(new_height);
    let out = allocatable_product(layout_bytes_per_pixel(layout), bw, bh);
    let pass = width == 0 || height == 0 || allocatable_product(16, width as u64, bh);
    out && pass
}

/// The value of `cover_width` for an image with pixels.
fn cover_width_of(width: u32, height: u32, new_width: u32, new_height: u32) -> (r: u64)
    requires
        height > 0,
    ensures
        r == cover_width(width, height, new_width, new_height),
        r <= u32::MAX,
{
    let w = width as u64;
    let nh = new_height as u64;
    assert(w * nh <= 0xffff_ffff * 0xffff_ffff) by (nonlinear_arith)
        requires
            w <= 0xffff_ffff,
            nh <= 0xffff_ffff,
    ;
    let q = w * nh / (height as u64);
    assert(q <= w * nh);
    let covering = q + 1;
    let c = if covering > new_width as u64 {
        covering
    } else {
        new_width as u64
    };
    if c > u32::MAX as u64 {
        u32::MAX as u64
    } else {
        c
    }
}

/// Whether `resize_to_fill_fits` holds.
pub fn can_resize_to_fill(width: u32, height: u32, new_width: u32, new_height: u32) -> (r: bool)
    ensures
        r == resize_to_fill_fits(width, height, new_width, new_height),
{
    if width == 0 && height == 0 {
        if new_width > new_height {
            new_height <= 1
        } else {
            new_width <= 1
        }
    } else if width == 0 || height == 0 {
        allocatable_product(4, 1, u32::MAX as u64)
    } else {
        let cw = cover_width_of(width, height, new_width, new_height);
        let ch = cover_width_of(height, width, new_height, new_width);
        allocatable_product(16, width as u64, ch) && allocatable_product(4, cw, ch)
    }
}

/// An RGBA image with eight bits per channel.
pub struct RgbaImage {
    width: u32,
    height: u32,
    pixels: Vec<u8>,
}

impl View for RgbaImage {
    type V = ImageView;

    closed spec fn view(&self) -> ImageView {
        ImageView { width: self.width, height: self.height, pixels: self.pixels@ }
    }
}

impl RgbaImage {
    #[verifier::type_invariant]
    closed spec fn pixels_fill_image(&self) -> bool {
        self.pixels@.len() == 4 * self.width as int * self.height as int
    }

    /// The image of `width` by `height` pixels held by `pixels`, when it has
    /// exactly four bytes per pixel.
    pub fn from_raw(width: u32, height: u32, pixels: Vec<u8>) -> (r: Option<Self>)
        ensures
            r is Some <==> pixels@.len() == 4 * width as int * height as int,
            r matches Some(img) ==> img@ == (ImageView { width, height, pixels: pixels@ }),
    {
        let n = pixels.len();
        let area = match (width as usize).checked_mul(height as usize) {
            Some(a) => a,
            None => {
                assert(4 * width as int * height as int > usize::MAX) by (nonlinear_arith)
                    requires
                        width as int * height as int > usize::MAX,
                ;
                return None;
            },
        };
        let bytes = match area.checked_mul(4) {
            Some(b) => b,
            None => {
                assert(4 * width as int * height as int > usize::MAX) by (nonlinear_arith)
                    requires
                        area == width as int * height as int,
                        area * 4 > usize::MAX,
                ;
                return None;
            },
        };
        assert(bytes == 4 * width as int * height as int) by (nonlinear_arith)
            requires
                area == width as int * height as int,
                bytes == area * 4,
        ;
        if pixels.len() != bytes {
            return None;
        }
        Some(RgbaImage { width, height, pixels })
    }

    /// The width in pixels.
    pub fn width(&self) -> (w: u32)
        ensures
            w == self@.width,
            view_wf(self@),
    {
        proof {
            use_type_invariant(self);
        }
        self.width
    }

    /// The height in pixels.
    pub fn height(&self) -> (h: u32)
        ensures
            h == self@.height,
            view_wf(self@),
    {
        proof {
            use_type_invariant(self);
        }
        self.height
    }

    /// The pixel bytes.
    pub fn as_bytes(&self) -> (b: &[u8])
        ensures
            b@ == self@.pixels,
            view_wf(self@),
    {
        proof {
            use_type_invariant(self);
        }
        self.pixels.as_slice()
    }

    /// The pixel bytes, taken out of the image.
    pub fn into_raw(self) -> (b: Vec<u8>)
        ensures
            b@ == self@.pixels,
    {
        self.pixels
    }
}

/// The channels and sample depth of an image's pixels: gray, gray and
/// alpha, RGB or RGBA, with 8- or 16-bit samples.
#[derive(Clone, Copy, Debug, PartialEq, Eq)]
pub enum ColorLayout {
    L8,
    La8,
    Rgb8,
    Rgba8,
    L16,
    La16,
    Rgb16,
    Rgba16,
}

/// The number of bytes of one pixel in a layout.
pub open spec fn bytes_per_pixel(layout: ColorLayout) -> int {
    match layout {
        ColorLayout::L8 => 1,
        ColorLayout::La8 => 2,
        ColorLayout::Rgb8 => 3,
        ColorLayout::Rgba8 => 4,
        ColorLayout::L16 => 2,
        ColorLayout::La16 => 4,
        ColorLayout::Rgb16 => 6,
        ColorLayout::Rgba16 => 8,
    }
}

/// The number of bytes of one pixel in a layout.
pub fn layout_bytes_per_pixel(layout: ColorLayout) -> (n: u64)
    ensures
        n == bytes_per_pixel(layout),
{
    match layout {
        ColorLayout::L8 => 1,
        ColorLayout::La8 => 2,
        ColorLayout::Rgb8 => 3,
        ColorLayout::Rgba8 => 4,
        ColorLayout::L16 => 2,
        ColorLayout::La16 => 4,
        ColorLayout::Rgb16 => 6,
        ColorLayout::Rgba16 => 8,
    }
}

/// An image in any of the integer layouts: its pixels row after row, each
/// sample in the byte order of the hardware.
pub struct SourceImage {
    pub layout: ColorLayout,
    pub width: u32,
    pub height: u32,
    pub bytes: Vec<u8>,
}

/// Whether `bytes` holds exactly the pixels of a `width` by `height` image
/// of the layout.
pub open spec fn source_wf(layout: ColorLayout, width: u32, height: u32, bytes: Seq<u8>) -> bool {
    bytes.len() == bytes_per_pixel(layout) * width * height
}

impl SourceImage {
    /// The `width` by `height` image of the layout held by `bytes`, when
    /// they are exactly its pixels.
    pub fn from_raw(layout: ColorLayout, width: u32, height: u32, bytes: Vec<u8>) -> (r: Option<Self>)
        ensures
            r is Some <==> source_wf(layout, width, height, bytes@),
            r matches Some(s) ==> s.layout == layout && s.width == width && s.height == height && s.bytes
                == bytes,
    {
        let per = layout_bytes_per_pixel(layout) as u128;
        let w = width as u128;
        let h = height as u128;
        assert(w * h <= 0x1_0000_0000 * 0x1_0000_0000) by (nonlinear_arith)
            requires
                w <= 0x1_0000_0000,
                h <= 0x1_0000_0000,
        ;
        let area = w * h;
        assert(per * area <= 8 * (0x1_0000_0000 * 0x1_0000_0000)) by (nonlinear_arith)
            requires
                per <= 8,
                area <= 0x1_0000_0000 * 0x1_0000_0000,
        ;
        let needed = per * area;
        assert(needed == bytes_per_pixel(layout) * width * height) by (nonlinear_arith)
            requires
                needed == per * area,
                area == w * h,
                per == bytes_per_pixel(layout),
                w == width,
                h == height,
        ;
        if bytes.len() as u128 == needed {
            Some(SourceImage { layout, width, height, bytes })
        } else {
            None
        }
    }
}

/// The 16-bit samples held by `bytes`, two bytes each in the byte order of
/// the hardware; a trailing odd byte is dropped.
pub(crate) fn native_words(bytes: &[u8]) -> (words: Vec<u16>)
    ensures
        words@.len() == bytes@.len() / 2,
        forall|i: int|
            0 <= i < words@.len() ==> native_u16_bytes(#[trigger] words@[i]) == bytes@.subrange(
                2 * i,
                2 * i + 2,
            ),
{
    let len = bytes.len();
    let n = len / 2;
    let mut words: Vec<u16> = Vec::with_capacity(n);
    let mut i: usize = 0;
    while i < n
        invariant
            len == bytes@.len(),
            n == len / 2,
            i <= n,
            words@.len() == i,
            forall|j: int|
                0 <= j < i ==> native_u16_bytes(#[trigger] words@[j]) == bytes@.subrange(
                    2 * j,
                    2 * j + 2,
                ),
        decreases n - i,
    {
        let pair: [u8; 2] = [bytes[2 * i], bytes[2 * i + 1]];
        assert(pair@ =~= bytes@.subrange(2 * i, 2 * i + 2));
        words.push(u16_from_native_bytes(pair));
        i = i + 1;
    }
    words
}

impl RgbaImage {
    /// The same image in the RGBA layout of source images.
    pub fn to_source(&self) -> (s: SourceImage)
        ensures
            s.layout == ColorLayout::Rgba8,
            s.width == self@.width,
            s.height == self@.height,
            s.bytes@ == self@.pixels,
            source_wf(s.layout, s.width, s.height, s.bytes@),
    {
        proof {
            use_type_invariant(self);
        }
        let mut bytes: Vec<u8> = Vec::with_capacity(self.pixels.len());
        let mut i: usize = 0;
        while i < self.pixels.len()
            invariant
                i <= self.pixels@.len(),
                bytes@ == self.pixels@.subrange(0, i as int),
            decreases self.pixels@.len() - i,
        {
            bytes.push(self.pixels[i]);
            i = i + 1;
            assert(bytes@ =~= self.pixels@.subrange(0, i as int));
        }
        assert(bytes@ =~= self.pixels@);
        SourceImage { layout: ColorLayout::Rgba8, width: self.width, height: self.height, bytes }
    }

    /// The RGBA image held by a source image of the RGBA layout.
    pub fn from_source(s: SourceImage) -> (img: Self)
        requires
            s.layout == ColorLayout::Rgba8,
            source_wf(s.layout, s.width, s.height, s.bytes@),
        ensures
            img@ == (ImageView { width: s.width, height: s.height, pixels: s.bytes@ }),
    {
        RgbaImage { width: s.width, height: s.height, pixels: s.bytes }
    }
}

/// An image of `width` by `height` pixels that are all `pixel`.
pub open spec fn filled_view(width: u32, height: u32, pixel: Seq<u8>) -> ImageView {
    ImageView {
        width,
        height,
        pixels: Seq::new((4 * width as int * height as int) as nat, |k: int| pixel[k % 4]),
    }
}

/// An image of `width` by `height` pixels that are all `pixel`.
pub fn filled(width: u32, height: u32, pixel: [u8; 4]) -> (img: RgbaImage)
    requires
        allocatable(4 * width * height),
    ensures
        img@ == filled_view(width, height, pixel@),
{
    let w = width as usize;
    let h = height as usize;
    assert(4 * w * h <= usize::MAX) by (nonlinear_arith)
        requires
            4 * width * height <= isize::MAX,
            isize::MAX <= usize::MAX,
            w == width,
            h == height,
    ;
    assert(w * h <= usize::MAX) by (nonlinear_arith)
        requires
            4 * w * h <= usize::MAX,
    ;
    let count = w * h;
    assert(4 * count == 4 * width as int * height as int) by (nonlinear_arith)
        requires
            count == w * h,
            w == width,
            h == height,
    ;
    let ghost target = filled_view(width, height, pixel@).pixels;
    let mut pixels: Vec<u8> = Vec::with_capacity(4 * count);
    let mut i: usize = 0;
    while i < count
        invariant
            count == w * h,
            4 * count <= usize::MAX,
            i <= count,
            pixels@.len() == 4 * i,
            forall|k: int| 0 <= k < pixels@.len() ==> pixels@[k] == pixel@[k % 4],
        decreases count - i,
    {
        pixels.push(pixel[0]);
        pixels.push(pixel[1]);
        pixels.push(pixel[2]);
        pixels.push(pixel[3]);
        proof {
            assert forall|k: int| 0 <= k < pixels@.len() implies pixels@[k] == pixel@[k % 4] by {
                if k >= 4 * i {
                    assert(k % 4 == k - 4 * i);
                }
            }
        }
        i = i + 1;
    }
    assert(pixels@ =~= target);
    RgbaImage { width, height, pixels }
}

/// The first row or column kept by a crop that starts at `pos` in an image
/// of `size` rows or columns: `pos`, but at most `size`.
pub open spec fn crop_start(pos: u32, size: u32) -> u32 {
    if pos < size {
        pos
    } else {
        size
    }
}

/// The number of rows or columns kept by a crop of `len` that starts at
/// `pos` in an image of `size`: `len`, but no more than the image has left.
pub open spec fn crop_len(len: u32, pos: u32, size: u32) -> u32 {
    if len < size - crop_start(pos, size) {
        len
    } else {
        (size - crop_start(pos, size)) as u32
    }
}

/// The bytes of `w` pixels of row `y` of an image, from column `x` on.
pub open spec fn row_bytes(v: ImageView, x: int, y: int, w: int) -> Seq<u8> {
    v.pixels.subrange(4 * (y * v.width + x), 4 * (y * v.width + x + w))
}

/// The bytes of `w` pixels from column `x` on, for `n` rows from row `y` on.
pub open spec fn crop_rows(v: ImageView, x: int, y: int, w: int, n: int) -> Seq<u8>
    decreases n,
{
    if n <= 0 {
        Seq::empty()
    } else {
        crop_rows(v, x, y, w, n - 1) + row_bytes(v, x, y + n - 1, w)
    }
}

/// The part of an image of `w` by `h` pixels from column `x` and row `y` on,
/// clipped to the image.
pub open spec fn cropped_view(v: ImageView, x: u32, y: u32, w: u32, h: u32) -> ImageView {
    let x0 = crop_start(x, v.width);
    let y0 = crop_start(y, v.height);
    let w0 = crop_len(w, x, v.width);
    let h0 = crop_len(h, y, v.height);
    ImageView { width: w0, height: h0, pixels: crop_rows(v, x0 as int, y0 as int, w0 as int, h0 as int) }
}

proof fn lemma_crop_rows_len(v: ImageView, x: int, y: int, w: int, n: int)
    requires
        view_wf(v),
        0 <= x,
        0 <= w,
        x + w <= v.width,
        0 <= y,
        0 <= n,
        y + n <= v.height,
    ensures
        crop_rows(v, x, y, w, n).len() == 4 * w * n,
    decreases n,
{
    if n > 0 {
        lemma_crop_rows_len(v, x, y, w, n - 1);
        lemma_row_in_bounds(v, x, y + n - 1, w);
        assert(4 * w * (n - 1) + 4 * w == 4 * w * n) by (nonlinear_arith);
        assert(crop_rows(v, x, y, w, n) == crop_rows(v, x, y, w, n - 1) + row_bytes(v, x, y + n - 1, w));
    } else {
        assert(4 * w * n == 0) by (nonlinear_arith)
            requires
                n == 0,
        ;
    }
}

proof fn lemma_row_in_bounds(v: ImageView, x: int, y: int, w: int)
    requires
        view_wf(v),
        0 <= x,
        0 <= w,
        x + w <= v.width,
        0 <= y < v.height,
    ensures
        0 <= 4 * (y * v.width + x) <= 4 * (y * v.width + x + w) <= v.pixels.len(),
        row_bytes(v, x, y, w).len() == 4 * w,
{
    let wd = v.width as int;
    let ht = v.height as int;
    assert(0 <= y * wd) by (nonlinear_arith)
        requires
            0 <= y,
            0 <= wd,
    ;
    assert(y * wd + wd <= ht * wd) by (nonlinear_arith)
        requires
            y + 1 <= ht,
            0 <= wd,
    ;
    assert(4 * (ht * wd) == v.pixels.len()) by (nonlinear_arith)
        requires
            v.pixels.len() == 4 * wd * ht,
    ;
    assert(y * v.width == y * wd);
    assert(4 * (y * wd + x + w) <= v.pixels.len());
}

/// The part of an image of `w` by `h` pixels from column `x` and row `y` on,
/// clipped to the image (what `image::imageops::crop_imm` views).
pub fn crop(img: &RgbaImage, x: u32, y: u32, w: u32, h: u32) -> (r: RgbaImage)
    ensures
        r@ == cropped_view(img@, x, y, w, h),
{
    proof {
        use_type_invariant(img);
    }
    let width = img.width;
    let height = img.height;
    let x0 = if x < width {
        x
    } else {
        width
    };
    let y0 = if y < height {
        y
    } else {
        height
    };
    let w0 = if w < width - x0 {
        w
    } else {
        width - x0
    };
    let h0 = if h < height - y0 {
        h
    } else {
        height - y0
    };
    let ghost v = img@;
    let total = img.pixels.len();
    let mut out: Vec<u8> = Vec::new();
    let mut r: u32 = 0;
    while r < h0
        invariant
            v == img@,
            view_wf(v),
            v.pixels.len() == total,
            width == v.width,
            height == v.height,
            x0 + w0 <= width,
            y0 + h0 <= height,
            r <= h0,
            out@ == crop_rows(v, x0 as int, y0 as int, w0 as int, r as int),
        decreases h0 - r,
    {
        proof {
            lemma_row_in_bounds(v, x0 as int, (y0 + r) as int, w0 as int);
        }
        let row = (y0 + r) as usize;
        let ghost row_start: int = row as int * width as int;
        assert(row as int * width as int <= usize::MAX);
        let line = row * (width as usize);
        assert(line == row_start);
        let start = 4 * (line + x0 as usize);
        let end = 4 * (line + x0 as usize + w0 as usize);
        let mut k: usize = start;
        let ghost before = out@;
        while k < end
            invariant
                v == img@,
                view_wf(v),
                start <= k <= end,
                end <= v.pixels.len(),
                out@ == before + v.pixels.subrange(start as int, k as int),
            decreases end - k,
        {
            out.push(img.pixels[k]);
            k = k + 1;
            assert(out@ =~= before + v.pixels.subrange(start as int, k as int));
        }
        r = r + 1;
    }
    proof {
        lemma_crop_rows_len(v, x0 as int, y0 as int, w0 as int, h0 as int);
    }
    RgbaImage { width: w0, height: h0, pixels: out }
}

/// How resampling weighs the source pixels.
#[derive(Clone, Copy, Debug, PartialEq, Eq)]
pub enum Filter {
    Nearest,
    Lanczos3,
}

/// The pixels that `image::imageops::resize` gives for an image resampled to
/// exactly `new_width` by `new_height` pixels.
pub uninterp spec fn resampled(
    pixels: Seq<u8>,
    width: u32,
    height: u32,
    new_width: u32,
    new_height: u32,
    filter: Filter,
) -> Seq<u8>;

/// The size and pixel bytes that `DynamicImage::resize` gives for an image
/// of the layout: the image resampled to the largest size of its aspect
/// ratio that fits the bounds, in the same layout.
pub uninterp spec fn resampled_within(
    layout: ColorLayout,
    width: u32,
    height: u32,
    bytes: Seq<u8>,
    new_width: u32,
    new_height: u32,
    filter: Filter,
) -> (u32, u32, Seq<u8>);

/// The size and pixels that `DynamicImage::resize_to_fill` gives: the image
/// resampled to cover the bounds with its aspect ratio, then cropped to them.
pub uninterp spec fn resampled_to_fill(
    pixels: Seq<u8>,
    width: u32,
    height: u32,
    new_width: u32,
    new_height: u32,
    filter: Filter,
) -> (u32, u32, Seq<u8>);

/// The pixels of `bottom` after `image::imageops::overlay` blends `top` onto
/// it with its top-left corner at `(x, y)`.
pub uninterp spec fn overlaid(
    bottom: Seq<u8>,
    bottom_width: u32,
    bottom_height: u32,
    top: Seq<u8>,
    top_width: u32,
    top_height: u32,
    x: i64,
    y: i64,
) -> Seq<u8>;

/// `image::imageops::resize`: the image resampled to exactly `new_width` by
/// `new_height` pixels with the given filter. The pixels are named, not
/// stated; the size is the one asked for. Its buffers must not exceed what
/// a `Vec` can hold.
#[verifier::external_body]
pub(crate) fn resize_exact(img: &RgbaImage, new_width: u32, new_height: u32, filter: Filter) -> (r: RgbaImage)
    requires
        resize_exact_fits(img@.width, img@.height, new_width, new_height),
    ensures
        r@ == (ImageView {
            width: new_width,
            height: new_height,
            pixels: resampled(img@.pixels, img@.width, img@.height, new_width, new_height, filter),
        }),
{
    let src = image::ImageBuffer::<image::Rgba<u8>, &[u8]>::from_raw(img.width, img.height, img.pixels.as_slice()).unwrap();
    let f = match filter {
        Filter::Nearest => image::imageops::FilterType::Nearest,
        Filter::Lanczos3 => image::imageops::FilterType::Lanczos3,
    };
    let out = image::imageops::resize(&src, new_width, new_height, f);
    RgbaImage { width: new_width, height: new_height, pixels: out.into_raw() }
}

/// Whether the samples of a layout have 16 bits.
pub open spec fn sixteen_bit(layout: ColorLayout) -> bool {
    layout == ColorLayout::L16 || layout == ColorLayout::La16 || layout == ColorLayout::Rgb16
        || layout == ColorLayout::Rgba16
}

/// Whether `words` are the 16-bit samples held by `bytes`, two bytes each in
/// the byte order of the hardware.
pub open spec fn words_of(words: Seq<u16>, bytes: Seq<u8>) -> bool {
    &&& words.len() == bytes.len() / 2
    &&& forall|i: int|
        0 <= i < words.len() ==> native_u16_bytes(#[trigger] words[i]) == bytes.subrange(2 * i, 2 * i + 2)
}

/// `DynamicImage::resize`: the `w` by `h` image of the layout held by `b`
/// (its 16-bit samples given as `v`) resampled to the largest size of its
/// aspect ratio that fits `nw` by `nh`, as the documentation states, in the
/// same layout. The size and bytes are named; the size fits the bounds, a
/// zero bound counting as one (`resize_dimensions` rounds each side to at
/// least one pixel), and the bytes fill it. The result is always `Some`:
/// `ImageBuffer::from_raw` accepts exactly the pixels of the image.
#[verifier::external_body]
fn resample_within(layout: ColorLayout, w: u32, h: u32, b: Vec<u8>, v: Vec<u16>, nw: u32, nh: u32, f: Filter) -> (r:
    Option<(u32, u32, Vec<u8>)>)
    requires
        source_wf(layout, w, h, b@),
        sixteen_bit(layout) ==> words_of(v@, b@),
        resize_within_fits(layout, w, h, nw, nh),
    ensures
        r is Some,
        r matches Some((rw, rh, rb)) ==> (rw, rh, rb@) == resampled_within(layout, w, h, b@, nw, nh, f)
            && rw <= at_least_one(nw) && rh <= at_least_one(nh) && source_wf(layout, rw, rh, rb@),
{
    let d = match layout {
        L8 => ImageLuma8(Buf::from_raw(w, h, b)?),
        La8 => ImageLumaA8(Buf::from_raw(w, h, b)?),
        Rgb8 => ImageRgb8(Buf::from_raw(w, h, b)?),
        Rgba8 => ImageRgba8(Buf::from_raw(w, h, b)?),
        L16 => ImageLuma16(Buf::from_raw(w, h, v)?),
        La16 => ImageLumaA16(Buf::from_raw(w, h, v)?),
        Rgb16 => ImageRgb16(Buf::from_raw(w, h, v)?),
        Rgba16 => ImageRgba16(Buf::from_raw(w, h, v)?),
    };
    let out = d.resize(nw, nh, if f == Filter::Nearest { Nearest } else { Lanczos3 });
    Some((out.width(), out.height(), out.into_bytes()))
}

/// A source image resampled by `DynamicImage::resize` to the largest size
/// of its aspect ratio that fits `new_width` by `new_height`, in the same
/// layout.
pub(crate) fn resize_source_within(img: SourceImage, new_width: u32, new_height: u32, filter: Filter) -> (r:
    SourceImage)
    requires
        source_wf(img.layout, img.width, img.height, img.bytes@),
        resize_within_fits(img.layout, img.width, img.height, new_width, new_height),
    ensures
        r.layout == img.layout,
        (r.width, r.height, r.bytes@) == resampled_within(
            img.layout,
            img.width,
            img.height,
            img.bytes@,
            new_width,
            new_height,
            filter,
        ),
        r.width <= at_least_one(new_width),
        r.height <= at_least_one(new_height),
        source_wf(r.layout, r.width, r.height, r.bytes@),
{
    let sixteen = match img.layout {
        ColorLayout::L16 | ColorLayout::La16 | ColorLayout::Rgb16 | ColorLayout::Rgba16 => true,
        _ => false,
    };
    let words = if sixteen {
        native_words(img.bytes.as_slice())
    } else {
        Vec::new()
    };
    let layout = img.layout;
    match resample_within(layout, img.width, img.height, img.bytes, words, new_width, new_height, filter) {
        Some((width, height, bytes)) => SourceImage { layout, width, height, bytes },
        None => {
            proof {
                assert(false);
            }
            SourceImage { layout, width: 0, height: 0, bytes: Vec::new() }
        },
    }
}

/// An RGBA image resampled by `DynamicImage::resize` to the largest size of
/// its aspect ratio that fits `new_width` by `new_height`.
pub(crate) fn resize_within(img: &RgbaImage, new_width: u32, new_height: u32, filter: Filter) -> (r: RgbaImage)
    requires
        resize_within_fits(ColorLayout::Rgba8, img@.width, img@.height, new_width, new_height),
    ensures
        (r@.width, r@.height, r@.pixels) == resampled_within(
            ColorLayout::Rgba8,
            img@.width,
            img@.height,
            img@.pixels,
            new_width,
            new_height,
            filter,
        ),
        r@.width <= at_least_one(new_width),
        r@.height <= at_least_one(new_height),
{
    let source = img.to_source();
    let resized = resize_source_within(source, new_width, new_height, filter);
    RgbaImage::from_source(resized)
}

/// `DynamicImage::resize_to_fill`: the image resampled to cover
/// `new_width` by `new_height` with its aspect ratio, then cropped to that
/// size. The size and pixels are named; the size is the one asked for when
/// the image has pixels and its covering size is within `u32::MAX` (beyond
/// it `resize_dimensions` clamps, and the crop may come out smaller).
#[verifier::external_body]
pub(crate) fn resize_to_fill(img: &RgbaImage, new_width: u32, new_height: u32, filter: Filter) -> (r: RgbaImage)
    requires
        resize_to_fill_fits(img@.width, img@.height, new_width, new_height),
    ensures
        (r@.width, r@.height, r@.pixels) == resampled_to_fill(
            img@.pixels,
            img@.width,
            img@.height,
            new_width,
            new_height,
            filter,
        ),
        cover_representable(img@.width, img@.height, new_width, new_height) ==> r@.width == new_width
            && r@.height == new_height,
{
    let src = image::RgbaImage::from_raw(img.width, img.height, img.pixels.clone()).unwrap();
    let f = match filter {
        Filter::Nearest => image::imageops::FilterType::Nearest,
        Filter::Lanczos3 => image::imageops::FilterType::Lanczos3,
    };
    let out = image::DynamicImage::ImageRgba8(src).resize_to_fill(new_width, new_height, f).to_rgba8();
    RgbaImage { width: out.width(), height: out.height(), pixels: out.into_raw() }
}

/// `image::imageops::overlay`: blends `top` onto `bottom` with its top-left
/// corner at `(x, y)`, clipped to `bottom`. The size of `bottom` stays; its
/// pixels are named.
#[verifier::external_body]
pub(crate) fn overlay(bottom: &mut RgbaImage, top: &RgbaImage, x: i64, y: i64)
    ensures
        final(bottom)@ == (ImageView {
            width: old(bottom)@.width,
            height: old(bottom)@.height,
            pixels: overlaid(
                old(bottom)@.pixels,
                old(bottom)@.width,
                old(bottom)@.height,
                top@.pixels,
                top@.width,
                top@.height,
                x,
                y,
            ),
        }),
{
    let (bw, bh) = (bottom.width, bottom.height);
    let mut dst = image::ImageBuffer::<image::Rgba<u8>, &mut [u8]>::from_raw(bw, bh, bottom.pixels.as_mut_slice()).unwrap();
    let src = image::ImageBuffer::<image::Rgba<u8>, &[u8]>::from_raw(top.width, top.height, top.pixels.as_slice()).unwrap();
    image::imageops::overlay(&mut dst, &src, x, y);
}

} // verus!
