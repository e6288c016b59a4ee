use wallman::monitor_map::MonitorMap;
use wallman::renderer::{MonitorGeometry, MonitorJob, RendererCommand, WallpaperSettings};

fn geometry(name: &str, w: u32, h: u32) -> MonitorGeometry {
    MonitorGeometry { name: name.to_string(), wp_width: w, wp_height: h, bd_width: w, bd_height: h }
}

fn summary(jobs: &[MonitorJob]) -> Vec<(String, String, String, u32)> {
    jobs.iter().map(|j| (j.name.clone(), j.path.clone(), j.mode.clone(), j.blur)).collect()
}

fn settings() -> WallpaperSettings {
    WallpaperSettings::new(Some("/c/current.png".to_string()), "fill".to_string(), 8, MonitorMap::new(), MonitorMap::new())
}

#[test]
fn monitor_map_insert_get_replace_clear() {
    let mut m: MonitorMap<u32> = MonitorMap::new();
    assert_eq!(m.len(), 0);
    assert_eq!(m.get("DP-1"), None);
    m.insert("DP-1".to_string(), 3);
    m.insert("HDMI-A-1".to_string(), 4);
    assert_eq!(m.get("DP-1"), Some(&3));
    assert!(m.contains_key("HDMI-A-1"));
    assert_eq!(m.len(), 2);
    m.insert("DP-1".to_string(), 7);
    assert_eq!(m.get("DP-1"), Some(&7));
    assert_eq!(m.len(), 2);
    m.clear();
    assert_eq!(m.len(), 0);
    assert!(!m.contains_key("DP-1"));
}

#[test]
fn jobs_use_default_image_for_every_monitor() {
    let s = settings();
    let jobs = s.build_jobs(&[geometry("DP-1", 1920, 1080), geometry("eDP-1", 2560, 1600)]);
    assert_eq!(
        summary(&jobs),
        vec![
            ("DP-1".to_string(), "/c/current.png".to_string(), "fill".to_string(), 8),
            ("eDP-1".to_string(), "/c/current.png".to_string(), "fill".to_string(), 8),
        ]
    );
    assert_eq!((jobs[1].wp_width, jobs[1].wp_height, jobs[1].bd_width, jobs[1].bd_height), (2560, 1600, 2560, 1600));
}

#[test]
fn jobs_leave_out_monitors_without_image() {
    let mut overrides = MonitorMap::new();
    overrides.insert("DP-1".to_string(), ("/c/DP-1.png".to_string(), "fit".to_string()));
    let s = WallpaperSettings::new(None, "fill".to_string(), 8, overrides, MonitorMap::new());
    let jobs = s.build_jobs(&[geometry("DP-1", 10, 10), geometry("eDP-1", 10, 10)]);
    assert_eq!(summary(&jobs), vec![("DP-1".to_string(), "/c/DP-1.png".to_string(), "fit".to_string(), 8)]);
}

#[test]
fn set_for_one_monitor_changes_only_that_monitor() {
    let mut s = settings();
    let monitors = [geometry("DP-1", 10, 10), geometry("eDP-1", 10, 10)];
    let jobs = s.handle_command(
        RendererCommand::SetWallpaper {
            image: "/c/eDP-1.png".to_string(),
            mode: "center".to_string(),
            monitor: "eDP-1".to_string(),
            blur: 3,
        },
        &monitors,
    );
    assert_eq!(
        summary(&jobs),
        vec![
            ("DP-1".to_string(), "/c/current.png".to_string(), "fill".to_string(), 8),
            ("eDP-1".to_string(), "/c/eDP-1.png".to_string(), "center".to_string(), 3),
        ]
    );
}

#[test]
fn set_for_all_monitors_drops_per_monitor_choices() {
    let mut s = settings();
    let monitors = [geometry("DP-1", 10, 10), geometry("eDP-1", 10, 10)];
    s.handle_command(
        RendererCommand::SetWallpaper { image: "/c/eDP-1.png".to_string(), mode: "center".to_string(), monitor: "eDP-1".to_string(), blur: 3 },
        &monitors,
    );
    let jobs = s.handle_command(
        RendererCommand::SetWallpaper { image: "/c/new.png".to_string(), mode: "tile".to_string(), monitor: String::new(), blur: 15 },
        &monitors,
    );
    assert_eq!(
        summary(&jobs),
        vec![
            ("DP-1".to_string(), "/c/new.png".to_string(), "tile".to_string(), 15),
            ("eDP-1".to_string(), "/c/new.png".to_string(), "tile".to_string(), 15),
        ]
    );
    assert!(s.monitor_overrides.len() == 0 && s.per_monitor_blur.len() == 0);
}

#[test]
fn reload_redraws_the_same_jobs() {
    let mut s = settings();
    let monitors = [geometry("DP-1", 10, 10)];
    let before = summary(&s.build_jobs(&monitors));
    let jobs = s.handle_command(RendererCommand::Reload, &monitors);
    assert_eq!(summary(&jobs), before);
}

#[test]
fn cached_mode_and_blur_follow_the_monitor_override() {
    let mut overrides = MonitorMap::new();
    overrides.insert("DP-1".to_string(), ("/c/DP-1.png".to_string(), "fit".to_string()));
    let mut blurs = MonitorMap::new();
    blurs.insert("DP-1".to_string(), 20);
    blurs.insert("eDP-1".to_string(), 30);
    let s = WallpaperSettings::new(Some("/c/current.png".to_string()), "fill".to_string(), 8, overrides, blurs);
    assert_eq!(s.cached_mode_and_blur("DP-1"), ("fit".to_string(), 20));
    assert_eq!(s.cached_mode_and_blur("eDP-1"), ("fill".to_string(), 8));
    let jobs = s.build_jobs(&[geometry("eDP-1", 1, 1)]);
    assert_eq!(jobs[0].blur, 30);
}
