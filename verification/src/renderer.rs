//! The renderer's wallpaper settings, the commands that change them, and
//! the jobs that tell the image worker what to draw on each monitor.

use vstd::prelude::*;
use crate::monitor_map::MonitorMap;

verus! {

/// A request to the renderer.
pub enum RendererCommand {
    /// Show `image` with `mode` and `blur` on `monitor`, or on every
    /// monitor when `monitor` is empty.
    SetWallpaper { image: String, mode: String, monitor: String, blur: u32 },
    /// Draw the current wallpapers again.
    Reload,
}

/// What the image worker should draw for one monitor.
#[derive(Clone)]
pub struct MonitorJob {
    pub name: String,
    pub path: String,
    pub mode: String,
    pub blur: u32,
    pub wp_width: u32,
    pub wp_height: u32,
    pub bd_width: u32,
    pub bd_height: u32,
}

/// A request to the image worker.
pub enum WorkerCommand {
    Process { jobs: Vec<MonitorJob> },
}

/// The name of a monitor and the sizes of its wallpaper and backdrop surfaces.
#[derive(Clone)]
pub struct MonitorGeometry {
    pub name: String,
    pub wp_width: u32,
    pub wp_height: u32,
    pub bd_width: u32,
    pub bd_height: u32,
}

/// What a job holds.
pub struct JobView {
    pub name: Seq<char>,
    pub path: Seq<char>,
    pub mode: Seq<char>,
    pub blur: u32,
    pub wp_width: u32,
    pub wp_height: u32,
    pub bd_width: u32,
    pub bd_height: u32,
}

impl View for MonitorJob {
    type V = JobView;

    open spec fn view(&self) -> JobView {
        JobView {
            name: self.name@,
            path: self.path@,
            mode: self.mode@,
            blur: self.blur,
            wp_width: self.wp_width,
            wp_height: self.wp_height,
            bd_width: self.bd_width,
            bd_height: self.bd_height,
        }
    }
}

/// The wallpapers the renderer shows: a default image and mode for every
/// monitor, per-monitor images and modes that take precedence, and a blur
/// that per-monitor blurs take precedence over.
pub struct WallpaperSettings {
    pub current_mode: String,
    pub default_image: Option<String>,
    pub monitor_overrides: MonitorMap<(String, String)>,
    pub current_blur: u32,
    pub per_monitor_blur: MonitorMap<u32>,
}

/// What the wallpaper settings hold.
pub struct SettingsView {
    pub mode: Seq<char>,
    pub image: Option<Seq<char>>,
    pub overrides: Map<Seq<char>, (String, String)>,
    pub blur: u32,
    pub blurs: Map<Seq<char>, u32>,
}

/// The view of an optional string.
pub open spec fn opt_view(s: Option<String>) -> Option<Seq<char>> {
    match s {
        Some(v) => Some(v@),
        None => None,
    }
}

impl View for WallpaperSettings {
    type V = SettingsView;

    open spec fn view(&self) -> SettingsView {
        SettingsView {
            mode: self.current_mode@,
            image: opt_view(self.default_image),
            overrides: self.monitor_overrides@,
            blur: self.current_blur,
            blurs: self.per_monitor_blur@,
        }
    }
}

/// The image and mode a monitor shows: its own when it has one, else the
/// default image with the current mode, else none.
pub open spec fn chosen_image(s: SettingsView, name: Seq<char>) -> Option<(Seq<char>, Seq<char>)> {
    if s.overrides.dom().contains(name) {
        Some((s.overrides[name].0@, s.overrides[name].1@))
    } else {
        match s.image {
            Some(p) => Some((p, s.mode)),
            None => None,
        }
    }
}

/// The blur of a monitor: its own when it has one, else the current blur.
pub open spec fn chosen_blur(s: SettingsView, name: Seq<char>) -> u32 {
    if s.blurs.dom().contains(name) {
        s.blurs[name]
    } else {
        s.blur
    }
}

/// The job for one monitor, if it has an image to show.
pub open spec fn planned_job(s: SettingsView, g: MonitorGeometry) -> Option<JobView> {
    match chosen_image(s, g.name@) {
        None => None,
        Some((path, mode)) => Some(
            JobView {
                name: g.name@,
                path,
                mode,
                blur: chosen_blur(s, g.name@),
                wp_width: g.wp_width,
                wp_height: g.wp_height,
                bd_width: g.bd_width,
                bd_height: g.bd_height,
            },
        ),
    }
}

/// The jobs for the monitors, in their order, leaving out those with no
/// image to show.
pub open spec fn planned_jobs(s: SettingsView, gs: Seq<MonitorGeometry>) -> Seq<JobView>
    decreases gs.len(),
{
    if gs.len() == 0 {
        Seq::empty()
    } else {
        planned_jobs(s, gs.drop_last()) + match planned_job(s, gs.last()) {
            Some(j) => seq![j],
            None => Seq::empty(),
        }
    }
}

/// The views of a sequence of jobs.
pub open spec fn job_views(jobs: Seq<MonitorJob>) -> Seq<JobView> {
    jobs.map_values(|j: MonitorJob| j@)
}

/// The settings after a command: a wallpaper for every monitor replaces the
/// default image, mode and blur and drops every per-monitor choice; one for
/// a named monitor becomes that monitor's own image, mode and blur; a
/// reload changes nothing.
pub open spec fn settings_after(s: SettingsView, cmd: RendererCommand) -> SettingsView {
    match cmd {
        RendererCommand::Reload => s,
        RendererCommand::SetWallpaper { image, mode, monitor, blur } => if monitor@.len() == 0 {
            SettingsView {
                mode: mode@,
                image: Some(image@),
                overrides: Map::empty(),
                blur,
                blurs: Map::empty(),
            }
        } else {
            SettingsView {
                overrides: s.overrides.insert(monitor@, (image, mode)),
                blurs: s.blurs.insert(monitor@, blur),
                ..s
            }
        },
    }
}

impl WallpaperSettings {
    /// Settings that show `image` with `mode` and `blur` on every monitor,
    /// with the given per-monitor images, modes and blurs taking precedence.
    pub fn new(
        image: Option<String>,
        mode: String,
        blur: u32,
        monitor_overrides: MonitorMap<(String, String)>,
        per_monitor_blur: MonitorMap<u32>,
    ) -> (s: Self)
        ensures
            s@ == (SettingsView {
                mode: mode@,
                image: opt_view(image),
                overrides: monitor_overrides@,
                blur,
                blurs: per_monitor_blur@,
            }),
    {
        WallpaperSettings {
            current_mode: mode,
            default_image: image,
            monitor_overrides,
            current_blur: blur,
            per_monitor_blur,
        }
    }

    /// The job for one monitor, if it has an image to show.
    pub fn job_for(&self, monitor: &MonitorGeometry) -> (r: Option<MonitorJob>)
        ensures
            match r {
                Some(j) => planned_job(self@, *monitor) == Some(j@),
                None => planned_job(self@, *monitor) is None,
            },
    {
        let name = monitor.name.as_str();
        let (path, mode) = match self.monitor_overrides.get(name) {
            Some(entry) => (entry.0.clone(), entry.1.clone()),
            None => match &self.default_image {
                Some(p) => (p.clone(), self.current_mode.clone()),
                None => {
                    return None;
                },
            },
        };
        let blur = match self.per_monitor_blur.get(name) {
            Some(b) => *b,
            None => self.current_blur,
        };
        Some(
            MonitorJob {
                name: monitor.name.clone(),
                path,
                mode,
                blur,
                wp_width: monitor.wp_width,
                wp_height: monitor.wp_height,
                bd_width: monitor.bd_width,
                bd_height: monitor.bd_height,
            },
        )
    }

    /// The jobs for the monitors, in their order, leaving out those with no
    /// image to show.
    pub fn build_jobs(&self, monitors: &[MonitorGeometry]) -> (jobs: Vec<MonitorJob>)
        ensures
            job_views(jobs@) == planned_jobs(self@, monitors@),
    {
        let mut jobs: Vec<MonitorJob> = Vec::new();
        let mut i: usize = 0;
        while i < monitors.len()
            invariant
                i <= monitors@.len(),
                job_views(jobs@) == planned_jobs(self@, monitors@.take(i as int)),
            decreases monitors@.len() - i,
        {
            let job = self.job_for(&monitors[i]);
            proof {
                let next = monitors@.take(i + 1);
                assert(next.drop_last() =~= monitors@.take(i as int));
                assert(next.last() == monitors@[i as int]);
            }
            match job {
                Some(j) => {
                    jobs.push(j);
                    assert(job_views(jobs@) =~= planned_jobs(self@, monitors@.take(i + 1)));
                },
                None => {
                    assert(job_views(jobs@) =~= planned_jobs(self@, monitors@.take(i + 1)));
                },
            }
            i = i + 1;
        }
        assert(monitors@.take(monitors@.len() as int) =~= monitors@);
        jobs
    }

    /// Applies a command and gives the jobs to hand to the image worker; no
    /// job is to be sent when the list is empty.
    pub fn handle_command(&mut self, command: RendererCommand, monitors: &[MonitorGeometry]) -> (jobs:
        Vec<MonitorJob>)
        ensures
            final(self)@ == settings_after(old(self)@, command),
            job_views(jobs@) == planned_jobs(final(self)@, monitors@),
    {
        match command {
            RendererCommand::Reload => {},
            RendererCommand::SetWallpaper { image, mode, monitor, blur } => {
                if monitor.as_str().is_empty() {
                    self.default_image = Some(image);
                    self.current_mode = mode;
                    self.current_blur = blur;
                    self.monitor_overrides.clear();
                    self.per_monitor_blur.clear();
                } else {
                    let key = monitor.clone();
                    self.monitor_overrides.insert(monitor, (image, mode));
                    self.per_monitor_blur.insert(key, blur);
                }
            },
        }
        self.build_jobs(monitors)
    }

    /// The mode and blur that a monitor's cached buffers were made with: its
    /// own mode, and its own blur or else the current one, when it has its
    /// own image; else the current mode and blur.
    pub fn cached_mode_and_blur(&self, name: &str) -> (r: (String, u32))
        ensures
            self@.overrides.dom().contains(name@) ==> r.0@ == self@.overrides[name@].1@ && r.1
                == chosen_blur(self@, name@),
            !self@.overrides.dom().contains(name@) ==> r.0@ == self@.mode && r.1 == self@.blur,
    {
        match self.monitor_overrides.get(name) {
            Some(entry) => {
                let blur = match self.per_monitor_blur.get(name) {
                    Some(b) => *b,
                    None => self.current_blur,
                };
                (entry.1.clone(), blur)
            },
            None => (self.current_mode.clone(), self.current_blur),
        }
    }
}

/// Whether every monitor was shown from the cache, so that the first pass
/// of the image worker is skipped: there is a monitor, and for each the
/// wallpaper and the backdrop were loaded (`loaded` holds one entry per
/// monitor).
pub fn all_cached(loaded: &[bool]) -> (r: bool)
    ensures
        r == (loaded@.len() > 0 && forall|i: int| 0 <= i < loaded@.len() ==> #[trigger] loaded@[i]),
{
    if loaded.len() == 0 {
        return false;
    }
    let mut i: usize = 0;
    while i < loaded.len()
        invariant
            i <= loaded@.len(),
            forall|j: int| 0 <= j < i ==> #[trigger] loaded@[j],
        decreases loaded@.len() - i,
    {
        if !loaded[i] {
            return false;
        }
        i = i + 1;
    }
    true
}

/// The job a monitor gets for an image, a mode and a blur.
pub open spec fn job_showing(g: MonitorGeometry, image: Seq<char>, mode: Seq<char>, blur: u32) -> JobView {
    JobView {
        name: g.name@,
        path: image,
        mode,
        blur,
        wp_width: g.wp_width,
        wp_height: g.wp_height,
        bd_width: g.bd_width,
        bd_height: g.bd_height,
    }
}

/// After a wallpaper is set for every monitor, every monitor shows that
/// image with that mode and blur, whatever it showed before.
pub proof fn lemma_set_for_all_monitors(
    s: SettingsView,
    image: String,
    mode: String,
    monitor: String,
    blur: u32,
    g: MonitorGeometry,
)
    requires
        monitor@.len() == 0,
    ensures
        planned_job(
            settings_after(s, (RendererCommand::SetWallpaper { image, mode, monitor, blur })),
            g,
        ) == Some(job_showing(g, image@, mode@, blur)),
{
}

/// After a wallpaper is set for one monitor, that monitor shows that image
/// with that mode and blur, and every other monitor shows what it showed
/// before.
pub proof fn lemma_set_for_one_monitor(
    s: SettingsView,
    image: String,
    mode: String,
    monitor: String,
    blur: u32,
    g: MonitorGeometry,
)
    requires
        monitor@.len() > 0,
    ensures
        g.name@ == monitor@ ==> planned_job(
            settings_after(s, (RendererCommand::SetWallpaper { image, mode, monitor, blur })),
            g,
        ) == Some(job_showing(g, image@, mode@, blur)),
        g.name@ != monitor@ ==> planned_job(
            settings_after(s, (RendererCommand::SetWallpaper { image, mode, monitor, blur })),
            g,
        ) == planned_job(s, g),
{
}

/// A reload leaves the settings, and so every job, as they were.
pub proof fn lemma_reload_keeps_jobs(s: SettingsView, gs: Seq<MonitorGeometry>)
    ensures
        planned_jobs(settings_after(s, RendererCommand::Reload), gs) == planned_jobs(s, gs),
{
}

/// There is at most one job per monitor, and every monitor has a job when
/// a default image is set.
pub proof fn lemma_jobs_cover_monitors(s: SettingsView, gs: Seq<MonitorGeometry>)
    ensures
        planned_jobs(s, gs).len() <= gs.len(),
        s.image is Some ==> planned_jobs(s, gs).len() == gs.len(),
    decreases gs.len(),
{
    if gs.len() > 0 {
        lemma_jobs_cover_monitors(s, gs.drop_last());
    }
}

} // verus!
