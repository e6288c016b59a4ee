//! The bookkeeping of one layer surface: its configured size, whether it
//! must be drawn again, and the layout of the shared-memory buffer that
//! holds its XRGB pixels.

use vstd::prelude::*;

verus! {

/// The configuration state of a layer surface.
#[derive(Clone, Copy, Debug)]
pub struct SurfaceStatus {
    pub width: u32,
    pub height: u32,
    pub configure_serial: Option<u32>,
    pub closed: bool,
    pub needs_rerender: bool,
}

impl SurfaceStatus {
    /// A surface that has not been configured yet.
    pub fn new() -> (s: Self)
        ensures
            s.width == 0,
            s.height == 0,
            s.configure_serial is None,
            !s.closed,
            !s.needs_rerender,
    {
        SurfaceStatus { width: 0, height: 0, configure_serial: None, closed: false, needs_rerender: false }
    }

    /// Records a configure event: a new size marks the surface for drawing
    /// again, and the serial waits to be acknowledged.
    pub fn configure(&mut self, serial: u32, width: u32, height: u32)
        ensures
            final(self).width == width,
            final(self).height == height,
            final(self).configure_serial == Some(serial),
            final(self).closed == old(self).closed,
            final(self).needs_rerender == (old(self).needs_rerender || old(self).width != width
                || old(self).height != height),
    {
        if self.width != width || self.height != height {
            self.width = width;
            self.height = height;
            self.needs_rerender = true;
        }
        self.configure_serial = Some(serial);
    }

    /// Records that the compositor closed the surface.
    pub fn close(&mut self)
        ensures
            *final(self) == (SurfaceStatus { closed: true, ..*old(self) }),
    {
        self.closed = true;
    }

    /// The serial waiting to be acknowledged, which is then no longer waiting.
    pub fn take_serial(&mut self) -> (r: Option<u32>)
        ensures
            r == old(self).configure_serial,
            *final(self) == (SurfaceStatus { configure_serial: None, ..*old(self) }),
    {
        let r = self.configure_serial;
        self.configure_serial = None;
        r
    }
}

/// How many round trips the renderer waits for new surfaces to be
/// configured before it goes on.
pub const CONFIGURE_ATTEMPTS: u32 = 10;

/// Whether a surface of some monitor (its wallpaper and its backdrop) has
/// no configure serial yet.
pub open spec fn awaiting_configure(monitors: Seq<(SurfaceStatus, SurfaceStatus)>) -> bool {
    exists|i: int| 0 <= i < monitors.len() && unconfigured(#[trigger] monitors[i])
}

/// Whether the wallpaper or the backdrop surface of a monitor has no
/// configure serial yet.
pub open spec fn unconfigured(monitor: (SurfaceStatus, SurfaceStatus)) -> bool {
    monitor.0.configure_serial is None || monitor.1.configure_serial is None
}

/// Whether the compositor closed a surface of some monitor.
pub open spec fn some_surface_closed(monitors: Seq<(SurfaceStatus, SurfaceStatus)>) -> bool {
    exists|i: int| 0 <= i < monitors.len() && ((#[trigger] monitors[i]).0.closed || monitors[i].1.closed)
}

/// Whether the renderer waits one more round trip for its surfaces to be
/// configured: some surface is still waiting, after fewer than
/// `CONFIGURE_ATTEMPTS` round trips.
pub fn wait_for_configure(monitors: &[(SurfaceStatus, SurfaceStatus)], attempts: u32) -> (r: bool)
    ensures
        r == (awaiting_configure(monitors@) && attempts < CONFIGURE_ATTEMPTS),
{
    if attempts >= CONFIGURE_ATTEMPTS {
        return false;
    }
    let mut i: usize = 0;
    while i < monitors.len()
        invariant
            i <= monitors@.len(),
            attempts < CONFIGURE_ATTEMPTS,
            forall|j: int| 0 <= j < i ==> !unconfigured(#[trigger] monitors@[j]),
        decreases monitors@.len() - i,
    {
        if monitors[i].0.configure_serial.is_none() || monitors[i].1.configure_serial.is_none() {
            assert(unconfigured(monitors@[i as int]));
            return true;
        }
        i = i + 1;
    }
    false
}

/// Whether the compositor closed a surface of some monitor, which ends the
/// renderer.
pub fn any_surface_closed(monitors: &[(SurfaceStatus, SurfaceStatus)]) -> (r: bool)
    ensures
        r == some_surface_closed(monitors@),
{
    let mut i: usize = 0;
    while i < monitors.len()
        invariant
            i <= monitors@.len(),
            forall|j: int| 0 <= j < i ==> !((#[trigger] monitors@[j]).0.closed || monitors@[j].1.closed),
        decreases monitors@.len() - i,
    {
        if monitors[i].0.closed || monitors[i].1.closed {
            assert(monitors@[i as int].0.closed || monitors@[i as int].1.closed);
            return true;
        }
        i = i + 1;
    }
    false
}

/// Whether either surface of a monitor must be drawn again; both are then
/// no longer marked.
pub fn take_rerender(wallpaper: &mut SurfaceStatus, backdrop: &mut SurfaceStatus) -> (r: bool)
    ensures
        r == (old(wallpaper).needs_rerender || old(backdrop).needs_rerender),
        r ==> *final(wallpaper) == (SurfaceStatus { needs_rerender: false, ..*old(wallpaper) }),
        r ==> *final(backdrop) == (SurfaceStatus { needs_rerender: false, ..*old(backdrop) }),
        !r ==> *final(wallpaper) == *old(wallpaper) && *final(backdrop) == *old(backdrop),
{
    if wallpaper.needs_rerender || backdrop.needs_rerender {
        wallpaper.needs_rerender = false;
        backdrop.needs_rerender = false;
        true
    } else {
        false
    }
}

/// Keeps the buffer, pool and file that a surface showed until the
/// compositor releases the buffer: they are kept when all three are present.
pub fn retire_buffer<B, P, F>(
    buffer: Option<B>,
    pool: Option<P>,
    file: Option<F>,
    old_buffers: &mut Vec<(B, P, F)>,
)
    ensures
        (buffer is Some && pool is Some && file is Some) ==> final(old_buffers)@ == old(
            old_buffers,
        )@.push((buffer->0, pool->0, file->0)),
        !(buffer is Some && pool is Some && file is Some) ==> final(old_buffers)@ == old(
            old_buffers,
        )@,
{
    if let (Some(b), Some(p), Some(f)) = (buffer, pool, file) {
        old_buffers.push((b, p, f));
    }
}

/// The layout of an XRGB shared-memory buffer, in the protocol's integers.
#[derive(Clone, Copy, Debug, PartialEq, Eq)]
pub struct BufferLayout {
    pub width: i32,
    pub height: i32,
    pub stride: i32,
    pub size: i32,
}

/// Why a buffer of some size cannot be described to the compositor.
#[derive(Clone, Copy, Debug, PartialEq, Eq)]
pub enum LayoutError {
    /// The width exceeds `i32::MAX`.
    WidthTooLarge,
    /// The height exceeds `i32::MAX`.
    HeightTooLarge,
    /// Four bytes per pixel of the width exceed `usize::MAX`.
    StrideOverflow,
    /// The stride times the height exceeds `usize::MAX`.
    SizeOverflow,
    /// The stride exceeds `i32::MAX`.
    StrideTooLarge,
    /// The stride times the height exceeds `i32::MAX`.
    SizeTooLarge,
}

/// The layout of a `width` by `height` XRGB buffer, or the first check it
/// fails, in this order: width and height fit in `i32`, stride and size fit
/// in `usize`, stride and size fit in `i32`.
pub open spec fn layout_of(width: u32, height: u32) -> Result<BufferLayout, LayoutError> {
    let stride = width as int * 4;
    let size = stride * height as int;
    if width > i32::MAX {
        Err(LayoutError::WidthTooLarge)
    } else if height > i32::MAX {
        Err(LayoutError::HeightTooLarge)
    } else if stride > usize::MAX {
        Err(LayoutError::StrideOverflow)
    } else if size > usize::MAX {
        Err(LayoutError::SizeOverflow)
    } else if stride > i32::MAX {
        Err(LayoutError::StrideTooLarge)
    } else if size > i32::MAX {
        Err(LayoutError::SizeTooLarge)
    } else {
        Ok(
            BufferLayout {
                width: width as i32,
                height: height as i32,
                stride: stride as i32,
                size: size as i32,
            },
        )
    }
}

/// The layout of a `width` by `height` XRGB buffer.
pub fn buffer_layout(width: u32, height: u32) -> (r: Result<BufferLayout, LayoutError>)
    ensures
        r == layout_of(width, height),
        r is Ok <==> height <= i32::MAX && 4 * width <= i32::MAX && 4 * width * height <= i32::MAX,
        r matches Ok(l) ==> l.width == width && l.height == height && l.stride == 4 * width && l.size
            == 4 * width * height,
{
    proof {
        lemma_layout_is_packed(width, height);
    }
    if width > 0x7fff_ffffu32 {
        return Err(LayoutError::WidthTooLarge);
    }
    if height > 0x7fff_ffffu32 {
        return Err(LayoutError::HeightTooLarge);
    }
    let w = width as usize;
    let h = height as usize;
    let stride = match w.checked_mul(4) {
        Some(s) => s,
        None => {
            return Err(LayoutError::StrideOverflow);
        },
    };
    let size = match stride.checked_mul(h) {
        Some(s) => s,
        None => {
            return Err(LayoutError::SizeOverflow);
        },
    };
    if stride > 0x7fff_ffffusize {
        return Err(LayoutError::StrideTooLarge);
    }
    if size > 0x7fff_ffffusize {
        return Err(LayoutError::SizeTooLarge);
    }
    Ok(BufferLayout { width: width as i32, height: height as i32, stride: stride as i32, size: size as i32 })
}

/// A buffer can be described exactly when its height, its rows of four
/// bytes per pixel and its whole size fit in the protocol's `i32`; its rows
/// are then packed, four bytes per pixel with no padding, and its size is
/// the rows times the height.
pub proof fn lemma_layout_is_packed(width: u32, height: u32)
    ensures
        layout_of(width, height) is Ok <==> height <= i32::MAX && 4 * width <= i32::MAX && 4 * width
            * height <= i32::MAX,
        layout_of(width, height) matches Ok(l) ==> l.width == width && l.height == height && l.stride
            == 4 * width && l.size == 4 * width * height,
{
    let w = width as int;
    let h = height as int;
    if height <= i32::MAX && 4 * w <= i32::MAX {
        if h > 0 {
            assert(4 * w * h >= 4 * w) by (nonlinear_arith)
                requires
                    h >= 1,
                    w >= 0,
            ;
        }
        assert(4 * w * h <= i32::MAX <==> w * 4 * h <= i32::MAX) by (nonlinear_arith);
        assert(w * 4 * h == 4 * w * h) by (nonlinear_arith);
    } else if 4 * w > i32::MAX && height <= i32::MAX {
        if h > 0 {
            assert(4 * w * h >= 4 * w) by (nonlinear_arith)
                requires
                    h >= 1,
                    w >= 0,
            ;
        }
    }
    assert(w * 4 * h == 4 * w * h) by (nonlinear_arith);
}

/// The byte size of a placeholder buffer for a `width` by `height` surface,
/// when it is not zero and fits in `usize`.
pub fn placeholder_size(width: u32, height: u32) -> (r: Option<usize>)
    ensures
        r matches Some(n) ==> n as int == width as int * height as int * 4 && n > 0,
        r is None ==> width as int * height as int * 4 == 0 || width as int * height as int * 4
            > usize::MAX,
{
    let w = width as usize;
    let h = height as usize;
    match w.checked_mul(h) {
        None => {
            proof {
                assert(width as int * height as int * 4 >= width as int * height as int) by (nonlinear_arith)
                    requires
                        width as int * height as int >= 0,
                ;
            }
            None
        },
        Some(area) => match area.checked_mul(4) {
            None => None,
            Some(n) => if n > 0 {
                Some(n)
            } else {
                None
            },
        },
    }
}

} // verus!
