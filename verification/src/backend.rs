//! Wallpaper backends that draw through an external program, and the
//! controller that forwards wallpaper requests to one of them.

use vstd::prelude::*;
use crate::text::str_eq;

verus! {

/// A call made on a wallpaper backend.
pub enum BackendCall {
    /// Show the image with the scaling mode.
    Show(Seq<char>, Seq<char>),
    /// Stop showing a wallpaper.
    Stop,
}

/// A program that can show a wallpaper.
///
/// A backend may record the calls made on it in `calls`; the contracts of
/// `set` and `stop` say what every backend that records them promises of
/// them.
pub trait WallpaperBackend: Send {
    /// Whether this backend keeps `calls` up to date. An implementation
    /// checked by Verus that defines `calls` makes it `true`. The default,
    /// `false`, is for implementations written outside Verus, such as those
    /// that start another program: they cannot define spec functions, and
    /// the contracts below state nothing of them.
    open spec fn records_calls(&self) -> bool {
        false
    }

    /// The calls made on this backend, oldest first, where it records them.
    open spec fn calls(&self) -> Seq<BackendCall> {
        Seq::empty()
    }

    /// Shows `image` with the scaling `mode`.
    fn set(&mut self, image: &str, mode: &str)
        ensures
            old(self).records_calls() ==> final(self).records_calls() && final(self).calls()
                == old(self).calls().push(BackendCall::Show(image@, mode@)),
    ;

    /// Stops showing a wallpaper.
    fn stop(&mut self)
        ensures
            old(self).records_calls() ==> final(self).records_calls() && final(self).calls()
                == old(self).calls().push(BackendCall::Stop),
    ;
}

/// Forwards wallpaper requests to a backend.
pub struct WallpaperController<B: WallpaperBackend + ?Sized = dyn WallpaperBackend> {
    backend: Box<B>,
}

impl<B: WallpaperBackend + ?Sized> WallpaperController<B> {
    /// The backend that requests go to.
    pub closed spec fn backend(&self) -> Box<B> {
        self.backend
    }

    /// A controller that forwards to `backend`.
    pub fn new(backend: Box<B>) -> (c: Self)
        ensures
            c.backend() == backend,
    {
        WallpaperController { backend }
    }

    /// Asks the backend to show `image` with the scaling `mode`: exactly one
    /// call is made on the backend, `set` with that image and mode, as a
    /// backend that records its calls shows.
    pub fn set_wallpaper(&mut self, image: &str, mode: &str)
        ensures
            old(self).backend().records_calls() ==> final(self).backend().records_calls()
                && final(self).backend().calls() == old(self).backend().calls().push(
                BackendCall::Show(image@, mode@),
            ),
    {
        self.backend.set(image, mode);
    }
}

/// Whether a backend name is one this program knows: `swaybg`; any other
/// name falls back to it.
pub fn is_known_backend(name: &str) -> (r: bool)
    ensures
        r == (name@ == "swaybg"@),
{
    str_eq(name, "swaybg")
}

} // verus!
