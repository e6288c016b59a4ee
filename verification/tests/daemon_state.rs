use wallman::config::{default_blur, default_mode, Config};
use wallman::daemon::{handle_command, Daemon, DaemonAction, RestoredWallpapers, WallpaperMeta};
use wallman::ipc::Command;
use wallman::renderer::RendererCommand;
use wallman::state::{MonitorOverride, WallmanState};

fn ov(monitor: &str, image: &str, mode: &str, blur: u32) -> MonitorOverride {
    MonitorOverride { monitor: monitor.to_string(), image: image.to_string(), mode: mode.to_string(), blur }
}

fn config() -> Config {
    Config { mode: "fit".to_string(), blur: 5 }
}

#[test]
fn config_defaults_are_fill_and_eight() {
    assert_eq!(default_mode(), "fill");
    assert_eq!(default_blur(), 8);
}

#[test]
fn default_state_is_empty() {
    let s = WallmanState::default();
    assert!(s.default_image.is_none() && s.default_mode.is_none() && s.default_blur.is_none());
    assert!(s.monitor_overrides.is_empty());
}

#[test]
fn record_for_all_monitors_sets_defaults_and_keeps_overrides() {
    let mut s = WallmanState::default();
    s.monitor_overrides.push(ov("DP-1", "/c/DP-1.png", "fit", 3));
    assert!(s.record_wallpaper(String::new(), "/c/current.png".to_string(), "fill".to_string(), 8));
    assert_eq!(s.default_image.as_deref(), Some("/c/current.png"));
    assert_eq!(s.default_mode.as_deref(), Some("fill"));
    assert_eq!(s.default_blur, Some(8));
    assert_eq!(s.monitor_overrides.len(), 1);
}

#[test]
fn record_refuses_blur_outside_one_to_thirty() {
    let mut s = WallmanState::default();
    s.monitor_overrides.push(ov("DP-1", "/c/DP-1.png", "fit", 3));
    assert!(!s.record_wallpaper(String::new(), "/c/current.png".to_string(), "fill".to_string(), 0));
    assert!(!s.record_wallpaper("DP-1".to_string(), "/c/DP-1.png".to_string(), "tile".to_string(), 31));
    assert!(s.default_image.is_none() && s.default_blur.is_none());
    assert_eq!(s.monitor_overrides.len(), 1);
    assert_eq!(s.monitor_overrides[0].blur, 3);
    assert!(s.record_wallpaper(String::new(), "/c/current.png".to_string(), "fill".to_string(), 1));
    assert!(s.record_wallpaper(String::new(), "/c/current.png".to_string(), "fill".to_string(), 30));
    assert_eq!(s.default_blur, Some(30));
}

#[test]
fn record_for_one_monitor_replaces_its_override() {
    let mut s = WallmanState::default();
    s.monitor_overrides.push(ov("DP-1", "/c/DP-1.png", "fit", 3));
    s.monitor_overrides.push(ov("eDP-1", "/c/eDP-1.png", "fill", 4));
    assert!(s.record_wallpaper("DP-1".to_string(), "/c/DP-1.png".to_string(), "tile".to_string(), 9));
    let names: Vec<(&str, &str, u32)> = s.monitor_overrides.iter().map(|o| (o.monitor.as_str(), o.mode.as_str(), o.blur)).collect();
    assert_eq!(names, vec![("eDP-1", "fill", 4), ("DP-1", "tile", 9)]);
    assert!(s.default_image.is_none());
}

#[test]
fn daemon_forwards_requests_and_stops() {
    match handle_command(Command::SetWallpaper { image: "/i.png".to_string(), mode: "fit".to_string(), monitor: "DP-1".to_string(), blur: 2 }) {
        DaemonAction::Render(RendererCommand::SetWallpaper { image, mode, monitor, blur }) => {
            assert_eq!((image.as_str(), mode.as_str(), monitor.as_str(), blur), ("/i.png", "fit", "DP-1", 2));
        }
        _ => panic!("a wallpaper request goes to the renderer"),
    }
    assert!(matches!(handle_command(Command::Reload), DaemonAction::Render(RendererCommand::Reload)));
    assert!(matches!(handle_command(Command::Stop), DaemonAction::Shutdown));
}

#[test]
fn startup_prefers_saved_mode_and_blur() {
    let d = Daemon::new(config());
    let mut saved = WallmanState::default();
    saved.default_mode = Some("tile".to_string());
    saved.default_blur = Some(12);
    let meta = Some(WallpaperMeta { mode: "center".to_string(), blur: 1 });
    assert_eq!(d.startup_mode_and_blur(&saved, meta), ("tile".to_string(), 12));
}

#[test]
fn startup_falls_back_to_metadata_then_configuration() {
    let d = Daemon::new(config());
    let mut saved = WallmanState::default();
    saved.default_blur = Some(12);
    let meta = Some(WallpaperMeta { mode: "center".to_string(), blur: 1 });
    assert_eq!(d.startup_mode_and_blur(&saved, meta), ("center".to_string(), 1));
    assert_eq!(d.startup_mode_and_blur(&saved, None), ("fit".to_string(), 12));
    assert_eq!(d.startup_mode_and_blur(&WallmanState::default(), None), ("fit".to_string(), 5));
}

#[test]
fn startup_image_prefers_saved_image() {
    let mut saved = WallmanState::default();
    assert_eq!(Daemon::startup_image(&saved, "/c/current.png".to_string()), "/c/current.png");
    saved.default_image = Some("/c/other.png".to_string());
    assert_eq!(Daemon::startup_image(&saved, "/c/current.png".to_string()), "/c/other.png");
}

#[test]
fn restore_keeps_existing_images_later_ones_win() {
    let saved = vec![ov("DP-1", "/a.png", "fit", 1), ov("eDP-1", "/gone.png", "fill", 2), ov("DP-1", "/b.png", "tile", 3)];
    let r = RestoredWallpapers::from_saved(&saved, &[true, false, true]);
    assert_eq!(r.overrides.get("DP-1"), Some(&("/b.png".to_string(), "tile".to_string())));
    assert_eq!(r.blurs.get("DP-1"), Some(&3));
    assert!(!r.overrides.contains_key("eDP-1"));
    assert_eq!(r.overrides.len(), 1);
}

#[test]
fn legacy_candidates() {
    let saved = vec![ov("DP-1", "/a.png", "fit", 1)];
    let r = RestoredWallpapers::from_saved(&saved, &[true]);
    assert_eq!(r.legacy_candidate("HDMI-A-1.png"), Some("HDMI-A-1".to_string()));
    assert_eq!(r.legacy_candidate("x.png.png"), Some("x".to_string()));
    assert_eq!(r.legacy_candidate("DP-1.png"), None);
    assert_eq!(r.legacy_candidate("current.png"), None);
    assert_eq!(r.legacy_candidate("colors.toml"), None);
}

#[test]
fn legacy_override_uses_metadata_or_defaults() {
    let mut r = RestoredWallpapers::from_saved(&[], &[]);
    let default = "fill".to_string();
    r.add_legacy("A".to_string(), "/c/A.png".to_string(), None, &default, 8);
    r.add_legacy("B".to_string(), "/c/B.png".to_string(), Some(WallpaperMeta { mode: "fit".to_string(), blur: 2 }), &default, 8);
    assert_eq!(r.overrides.get("A"), Some(&("/c/A.png".to_string(), "fill".to_string())));
    assert_eq!(r.blurs.get("A"), Some(&8));
    assert_eq!(r.overrides.get("B"), Some(&("/c/B.png".to_string(), "fit".to_string())));
    assert_eq!(r.blurs.get("B"), Some(&2));
    let s = r.into_settings("/c/current.png".to_string(), "fill".to_string(), 8);
    assert_eq!(s.default_image.as_deref(), Some("/c/current.png"));
    assert_eq!(s.monitor_overrides.len(), 2);
}

#[test]
fn recorded_monitor_wallpaper_is_restored() {
    let mut s = WallmanState::default();
    s.monitor_overrides.push(ov("DP-1", "/c/old.png", "fit", 3));
    assert!(s.record_wallpaper("DP-1".to_string(), "/c/DP-1.png".to_string(), "center".to_string(), 11));
    let present = vec![true; s.monitor_overrides.len()];
    let r = RestoredWallpapers::from_saved(&s.monitor_overrides, &present);
    assert_eq!(r.overrides.get("DP-1"), Some(&("/c/DP-1.png".to_string(), "center".to_string())));
    assert_eq!(r.blurs.get("DP-1"), Some(&11));
}
