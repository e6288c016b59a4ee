//! The daemon's decisions: which wallpapers to restore at startup, and what
//! to do with each request a client sends.

use vstd::prelude::*;
use crate::config::Config;
use crate::ipc::Command;
use crate::monitor_map::MonitorMap;
use crate::renderer::{RendererCommand, WallpaperSettings, SettingsView, opt_view};
use crate::state::{MonitorOverride, WallmanState, for_other_monitor};
use crate::text::{str_ends_with, str_eq, trim_end_repeated, has_suffix, trim_end_all};

verus! {

/// The mode and blur saved beside a cached wallpaper image.
#[derive(Debug, Clone)]
pub struct WallpaperMeta {
    pub mode: String,
    pub blur: u32,
}

/// The wallpaper daemon.
pub struct Daemon {
    pub config: Config,
}

/// What the daemon does with a request.
pub enum DaemonAction {
    /// Hand the command to the renderer.
    Render(RendererCommand),
    /// Shut down.
    Shutdown,
}

/// The action for a request: a wallpaper or a reload goes to the renderer
/// unchanged, a stop shuts the daemon down.
pub open spec fn action_for(command: Command) -> DaemonAction {
    match command {
        Command::SetWallpaper { image, mode, monitor, blur } => DaemonAction::Render(
            RendererCommand::SetWallpaper { image, mode, monitor, blur },
        ),
        Command::Reload => DaemonAction::Render(RendererCommand::Reload),
        Command::Stop => DaemonAction::Shutdown,
    }
}

/// What the daemon does with a request.
pub fn handle_command(command: Command) -> (action: DaemonAction)
    ensures
        action == action_for(command),
{
    match command {
        Command::SetWallpaper { image, mode, monitor, blur } => DaemonAction::Render(
            RendererCommand::SetWallpaper { image, mode, monitor, blur },
        ),
        Command::Reload => DaemonAction::Render(RendererCommand::Reload),
        Command::Stop => DaemonAction::Shutdown,
    }
}

/// The default mode and blur at startup: the saved ones, each falling back
/// to the configuration; but when no mode was saved and the metadata of the
/// cached wallpaper could be read, its mode and blur.
pub open spec fn startup_mode_and_blur(config: Config, saved_mode: Option<String>, saved_blur: Option<u32>, meta: Option<WallpaperMeta>) -> (Seq<char>, u32) {
    match (saved_mode, meta) {
        (None, Some(m)) => (m.mode@, m.blur),
        _ => (
            match saved_mode {
                Some(mode) => mode@,
                None => config.mode@,
            },
            match saved_blur {
                Some(b) => b,
                None => config.blur,
            },
        ),
    }
}

/// The per-monitor wallpapers restored from the saved overrides whose image
/// still exists, later ones replacing earlier ones for the same monitor.
pub open spec fn restored_overrides(saved: Seq<MonitorOverride>, present: Seq<bool>) -> Map<Seq<char>, (String, String)>
    decreases saved.len(),
{
    if saved.len() == 0 || present.len() != saved.len() {
        Map::empty()
    } else {
        let before = restored_overrides(saved.drop_last(), present.drop_last());
        if present.last() {
            before.insert(saved.last().monitor@, (saved.last().image, saved.last().mode))
        } else {
            before
        }
    }
}

/// The per-monitor blurs restored from the saved overrides whose image still
/// exists, later ones replacing earlier ones for the same monitor.
pub open spec fn restored_blurs(saved: Seq<MonitorOverride>, present: Seq<bool>) -> Map<Seq<char>, u32>
    decreases saved.len(),
{
    if saved.len() == 0 || present.len() != saved.len() {
        Map::empty()
    } else {
        let before = restored_blurs(saved.drop_last(), present.drop_last());
        if present.last() {
            before.insert(saved.last().monitor@, saved.last().blur)
        } else {
            before
        }
    }
}

/// The monitor a cached image file is for, under the naming of earlier
/// versions: `{monitor}.png` for any name other than `current.png`, with
/// every trailing `.png` removed.
pub open spec fn legacy_monitor_of(file_name: Seq<char>) -> Option<Seq<char>> {
    if has_suffix(file_name, ".png"@) && file_name != "current.png"@ {
        Some(trim_end_all(file_name, ".png"@))
    } else {
        None
    }
}

/// The per-monitor wallpapers and blurs to restore at startup.
pub struct RestoredWallpapers {
    pub overrides: MonitorMap<(String, String)>,
    pub blurs: MonitorMap<u32>,
}

impl RestoredWallpapers {
    /// The wallpapers of the saved overrides whose image still exists;
    /// `present[i]` tells whether the image of `saved[i]` exists.
    pub fn from_saved(saved: &[MonitorOverride], present: &[bool]) -> (r: Self)
        requires
            present@.len() == saved@.len(),
        ensures
            r.overrides@ == restored_overrides(saved@, present@),
            r.blurs@ == restored_blurs(saved@, present@),
            r.blurs@.dom() == r.overrides@.dom(),
    {
        proof {
            lemma_blur_restored_with_override(saved@, present@);
        }
        let mut overrides: MonitorMap<(String, String)> = MonitorMap::new();
        let mut blurs: MonitorMap<u32> = MonitorMap::new();
        let mut i: usize = 0;
        while i < saved.len()
            invariant
                i <= saved@.len(),
                present@.len() == saved@.len(),
                overrides@ == restored_overrides(saved@.take(i as int), present@.take(i as int)),
                blurs@ == restored_blurs(saved@.take(i as int), present@.take(i as int)),
            decreases saved@.len() - i,
        {
            proof {
                assert(saved@.take(i + 1).drop_last() =~= saved@.take(i as int));
                assert(present@.take(i + 1).drop_last() =~= present@.take(i as int));
                assert(saved@.take(i + 1).last() == saved@[i as int]);
                assert(present@.take(i + 1).last() == present@[i as int]);
            }
            if present[i] {
                let o = &saved[i];
                overrides.insert(o.monitor.clone(), (o.image.clone(), o.mode.clone()));
                blurs.insert(o.monitor.clone(), o.blur);
            }
            i = i + 1;
        }
        assert(saved@.take(saved@.len() as int) =~= saved@);
        assert(present@.take(present@.len() as int) =~= present@);
        RestoredWallpapers { overrides, blurs }
    }

    /// The monitor whose wallpaper a cached image file holds under the
    /// naming of earlier versions, when that monitor has no wallpaper yet.
    pub fn legacy_candidate(&self, file_name: &str) -> (r: Option<String>)
        ensures
            match r {
                Some(m) => legacy_monitor_of(file_name@) == Some(m@) && !self.overrides@.dom().contains(m@),
                None => legacy_monitor_of(file_name@) matches Some(m) ==> self.overrides@.dom().contains(m),
            },
    {
        if !str_ends_with(file_name, ".png") || str_eq(file_name, "current.png") {
            return None;
        }
        let monitor = trim_end_repeated(file_name, ".png");
        if self.overrides.contains_key(monitor.as_str()) {
            None
        } else {
            Some(monitor)
        }
    }

    /// Restores the wallpaper of a monitor from a cached image under the
    /// naming of earlier versions, with the mode and blur of its metadata
    /// when it could be read, else the defaults.
    pub fn add_legacy(
        &mut self,
        monitor: String,
        image: String,
        meta: Option<WallpaperMeta>,
        default_mode: &String,
        default_blur: u32,
    )
        ensures
            final(self).overrides@ == old(self).overrides@.insert(
                monitor@,
                (
                    image,
                    match meta {
                        Some(m) => m.mode,
                        None => *default_mode,
                    },
                ),
            ),
            final(self).blurs@ == old(self).blurs@.insert(
                monitor@,
                match meta {
                    Some(m) => m.blur,
                    None => default_blur,
                },
            ),
    {
        let (mode, blur) = match meta {
            Some(m) => (m.mode, m.blur),
            None => (default_mode.clone(), default_blur),
        };
        let key = monitor.clone();
        self.overrides.insert(monitor, (image, mode));
        self.blurs.insert(key, blur);
    }

    /// The renderer's settings: `image` with `mode` and `blur` for every
    /// monitor, and the restored wallpapers for single monitors.
    pub fn into_settings(self, image: String, mode: String, blur: u32) -> (s: WallpaperSettings)
        ensures
            s@ == (SettingsView {
                mode: mode@,
                image: Some(image@),
                overrides: self.overrides@,
                blur,
                blurs: self.blurs@,
            }),
    {
        WallpaperSettings::new(Some(image), mode, blur, self.overrides, self.blurs)
    }
}

impl Daemon {
    /// A daemon with the given configuration.
    pub fn new(config: Config) -> (d: Self)
        ensures
            d.config == config,
    {
        Daemon { config }
    }

    /// The default mode and blur at startup, from the saved state, the
    /// metadata of the cached wallpaper (read only when no mode was saved)
    /// and the configuration.
    pub fn startup_mode_and_blur(&self, saved: &WallmanState, meta: Option<WallpaperMeta>) -> (r: (String, u32))
        ensures
            (r.0@, r.1) == startup_mode_and_blur(self.config, saved.default_mode, saved.default_blur, meta),
            saved.default_mode matches Some(m) ==> r.0@ == m@ && r.1 == match saved.default_blur {
                Some(b) => b,
                None => self.config.blur,
            },
            saved.default_mode is None && meta is Some ==> r.0@ == meta->0.mode@ && r.1 == meta->0.blur,
            saved.default_mode is None && meta is None ==> r.0@ == self.config.mode@ && r.1 == match saved.default_blur {
                Some(b) => b,
                None => self.config.blur,
            },
    {
        proof {
            lemma_startup_prefers_saved(self.config, saved.default_mode, saved.default_blur, meta);
        }
        let mut mode = match &saved.default_mode {
            Some(m) => m.clone(),
            None => self.config.mode.clone(),
        };
        let mut blur = match saved.default_blur {
            Some(b) => b,
            None => self.config.blur,
        };
        if saved.default_mode.is_none() {
            if let Some(m) = meta {
                mode = m.mode;
                blur = m.blur;
            }
        }
        (mode, blur)
    }

    /// The image shown on every monitor at startup: the saved one, else the
    /// cached wallpaper.
    pub fn startup_image(saved: &WallmanState, cached_wallpaper: String) -> (r: String)
        ensures
            r@ == match opt_view(saved.default_image) {
                Some(p) => p,
                None => cached_wallpaper@,
            },
    {
        match &saved.default_image {
            Some(p) => p.clone(),
            None => cached_wallpaper,
        }
    }
}

/// Every restored monitor has a saved override whose image exists, and the
/// restored wallpaper of a monitor is that of its last such override.
pub proof fn lemma_restored_from_present(saved: Seq<MonitorOverride>, present: Seq<bool>, monitor: Seq<char>)
    requires
        present.len() == saved.len(),
    ensures
        restored_overrides(saved, present).dom().contains(monitor) <==> exists|i: int|
            0 <= i < saved.len() && present[i] && #[trigger] saved[i].monitor@ == monitor,
        restored_overrides(saved, present).dom().contains(monitor) ==> exists|i: int|
            0 <= i < saved.len() && present[i] && saved[i].monitor@ == monitor
                && restored_overrides(saved, present)[monitor] == (saved[i].image, saved[i].mode)
                && forall|j: int| i < j < saved.len() && present[j] ==> saved[j].monitor@ != monitor,
    decreases saved.len(),
{
    if saved.len() > 0 {
        let rest = saved.drop_last();
        let rest_present = present.drop_last();
        lemma_restored_from_present(rest, rest_present, monitor);
        let n = saved.len() - 1;
        if present.last() && saved.last().monitor@ == monitor {
            assert(saved[n] == saved.last() && present[n] == present.last());
        } else {
            if exists|i: int| 0 <= i < saved.len() && present[i] && #[trigger] saved[i].monitor@ == monitor {
                let i = choose|i: int| 0 <= i < saved.len() && present[i] && #[trigger] saved[i].monitor@ == monitor;
                assert(i != n);
                assert(rest[i] == saved[i] && rest_present[i] == present[i]);
            }
            if exists|i: int| 0 <= i < rest.len() && rest_present[i] && #[trigger] rest[i].monitor@ == monitor {
                let i = choose|i: int| 0 <= i < rest.len() && rest_present[i] && #[trigger] rest[i].monitor@ == monitor;
                assert(rest[i] == saved[i] && rest_present[i] == present[i]);
            }
            if restored_overrides(saved, present).dom().contains(monitor) {
                let i = choose|i: int|
                    0 <= i < rest.len() && rest_present[i] && rest[i].monitor@ == monitor
                        && restored_overrides(rest, rest_present)[monitor] == (rest[i].image, rest[i].mode)
                        && forall|j: int| i < j < rest.len() && rest_present[j] ==> rest[j].monitor@ != monitor;
                assert(rest[i] == saved[i] && rest_present[i] == present[i]);
                assert forall|j: int| i < j < saved.len() && present[j] implies saved[j].monitor@ != monitor by {
                    if j < n {
                        assert(rest[j] == saved[j] && rest_present[j] == present[j]);
                    } else {
                        assert(saved[j] == saved.last() && present[j] == present.last());
                    }
                }
            }
        }
    }
}

/// The startup mode is the saved one whenever a mode was saved, whatever the
/// metadata, with the saved blur, else the configuration's; the metadata of
/// the cached wallpaper counts only when no mode was saved, and then gives
/// both the mode and the blur; with neither, the mode is the
/// configuration's.
pub proof fn lemma_startup_prefers_saved(
    config: Config,
    saved_mode: Option<String>,
    saved_blur: Option<u32>,
    meta: Option<WallpaperMeta>,
)
    ensures
        ({
            let (mode, blur) = startup_mode_and_blur(config, saved_mode, saved_blur, meta);
            let fallback_blur = if saved_blur is Some {
                saved_blur->0
            } else {
                config.blur
            };
            &&& saved_mode is Some ==> mode == saved_mode->0@ && blur == fallback_blur
            &&& saved_mode is None && meta is Some ==> mode == meta->0.mode@ && blur == meta->0.blur
            &&& saved_mode is None && meta is None ==> mode == config.mode@ && blur == fallback_blur
        }),
{
}

/// A monitor gets a restored blur exactly when it gets a restored wallpaper,
/// and both come from one saved override whose image is present: the blur
/// of a dropped override is never restored.
pub proof fn lemma_blur_restored_with_override(saved: Seq<MonitorOverride>, present: Seq<bool>)
    requires
        present.len() == saved.len(),
    ensures
        restored_blurs(saved, present).dom() == restored_overrides(saved, present).dom(),
        forall|m: Seq<char>|
            #[trigger] restored_blurs(saved, present).dom().contains(m) ==> exists|i: int|
                0 <= i < saved.len() && present[i] && saved[i].monitor@ == m
                    && restored_overrides(saved, present)[m] == (saved[i].image, saved[i].mode)
                    && restored_blurs(saved, present)[m] == saved[i].blur,
    decreases saved.len(),
{
    if saved.len() > 0 {
        let rest = saved.drop_last();
        let rest_present = present.drop_last();
        lemma_blur_restored_with_override(rest, rest_present);
        let n = saved.len() - 1;
        assert(restored_blurs(saved, present).dom() =~= restored_overrides(saved, present).dom());
        assert forall|m: Seq<char>|
            #[trigger] restored_blurs(saved, present).dom().contains(m) implies exists|i: int|
                0 <= i < saved.len() && present[i] && saved[i].monitor@ == m
                    && restored_overrides(saved, present)[m] == (saved[i].image, saved[i].mode)
                    && restored_blurs(saved, present)[m] == saved[i].blur by {
            if present.last() && saved.last().monitor@ == m {
                assert(saved[n] == saved.last() && present[n] == present.last());
            } else {
                assert(restored_blurs(rest, rest_present).dom().contains(m));
                let i = choose|i: int|
                    0 <= i < rest.len() && rest_present[i] && rest[i].monitor@ == m
                        && restored_overrides(rest, rest_present)[m] == (rest[i].image, rest[i].mode)
                        && restored_blurs(rest, rest_present)[m] == rest[i].blur;
                assert(rest[i] == saved[i] && rest_present[i] == present[i]);
            }
        }
    }
}

/// Under the naming of earlier versions, `{monitor}.png` is the cached
/// image of `monitor`, for any name that does not itself end in `.png`,
/// except `current.png`, which holds the wallpaper of every monitor; a
/// file not ending in `.png` belongs to no monitor.
pub proof fn lemma_legacy_file_names_its_monitor(monitor: Seq<char>, file_name: Seq<char>)
    ensures
        !has_suffix(monitor, ".png"@) && monitor + ".png"@ != "current.png"@ ==> legacy_monitor_of(
            monitor + ".png"@,
        ) == Some(monitor),
        !has_suffix(file_name, ".png"@) ==> legacy_monitor_of(file_name) is None,
        legacy_monitor_of("current.png"@) is None,
{
    reveal_strlit(".png");
    let f = monitor + ".png"@;
    assert(f.subrange(f.len() - 4, f.len() as int) =~= ".png"@);
    assert(f.subrange(0, f.len() - 4) =~= monitor);
    assert(has_suffix(f, ".png"@));
    reveal_with_fuel(trim_end_all, 2);
}

/// A wallpaper recorded for one monitor is the one restored for it at the
/// next startup, when its image still exists.
pub proof fn lemma_recorded_wallpaper_restored(
    overrides: Seq<MonitorOverride>,
    new: MonitorOverride,
    present: Seq<bool>,
)
    requires
        new.monitor@.len() > 0,
        present.len() == overrides.filter(for_other_monitor(new.monitor@)).len() + 1,
        present.last(),
    ensures
        ({
            let saved = overrides.filter(for_other_monitor(new.monitor@)).push(new);
            &&& restored_overrides(saved, present).dom().contains(new.monitor@)
            &&& restored_overrides(saved, present)[new.monitor@] == (new.image, new.mode)
            &&& restored_blurs(saved, present)[new.monitor@] == new.blur
        }),
{
    let saved = overrides.filter(for_other_monitor(new.monitor@)).push(new);
    assert(saved.len() > 0);
    assert(saved.last() == new);
}

} // verus!
