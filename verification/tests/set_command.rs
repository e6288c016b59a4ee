use wallman::commands::set::{
    cache_file_name, exceeds_max_dimension, is_stale_monitor_file, is_valid_monitor_name, meta_file_name,
    request_monitor, resolve_mode_and_blur, set_request, temporary_file_name, cached_source, MAX_SOURCE_DIMENSION,
};
use wallman::image_ops::{can_resize_within, ColorLayout, SourceImage};
use wallman::commands::stop;
use wallman::backend::is_known_backend;
use wallman::config::{is_valid_blur, Config};
use wallman::ipc::Command;

#[test]
fn monitor_names_allow_letters_digits_hyphens_underscores() {
    assert!(is_valid_monitor_name("eDP-1"));
    assert!(is_valid_monitor_name("HDMI_A_1"));
    assert!(is_valid_monitor_name(""));
    assert!(!is_valid_monitor_name("DP 1"));
    assert!(!is_valid_monitor_name("../etc"));
    assert!(!is_valid_monitor_name("DP-1é"));
}

#[test]
fn arguments_fall_back_to_configuration() {
    let config = Config { mode: "fit".to_string(), blur: 5 };
    assert_eq!(resolve_mode_and_blur(None, None, &config), ("fit".to_string(), 5));
    assert_eq!(resolve_mode_and_blur(Some("tile".to_string()), Some(15), &config), ("tile".to_string(), 15));
}

#[test]
fn cached_file_names() {
    assert_eq!(cache_file_name(&None), "current.png");
    assert_eq!(cache_file_name(&Some("DP-1".to_string())), "DP-1.png");
    assert_eq!(meta_file_name(&None), "current.toml");
    assert_eq!(meta_file_name(&Some("DP-1".to_string())), "DP-1.toml");
    assert_eq!(temporary_file_name("DP-1.png"), "DP-1.png.tmp");
}

#[test]
fn source_images_over_3840_are_scaled_down() {
    assert!(!exceeds_max_dimension(3840, 3840));
    assert!(exceeds_max_dimension(3841, 10));
    assert!(exceeds_max_dimension(10, 3841));
}

#[test]
fn stale_files_are_per_monitor_images_metadata_and_buffers() {
    assert!(is_stale_monitor_file("DP-1.png"));
    assert!(is_stale_monitor_file("DP-1.toml"));
    assert!(is_stale_monitor_file("DP-1.wp.raw"));
    assert!(!is_stale_monitor_file("current.png"));
    assert!(!is_stale_monitor_file("current.toml"));
    assert!(!is_stale_monitor_file("colors.toml"));
    assert!(!is_stale_monitor_file("state.json"));
    assert!(!is_stale_monitor_file("DP-1.png.tmp"));
}

#[test]
fn request_names_monitor_or_everything() {
    assert_eq!(request_monitor(&None), "");
    match set_request("/c/DP-1.png".to_string(), "fit".to_string(), &Some("DP-1".to_string()), 4) {
        Some(Command::SetWallpaper { image, mode, monitor, blur }) => {
            assert_eq!((image.as_str(), mode.as_str(), monitor.as_str(), blur), ("/c/DP-1.png", "fit", "DP-1", 4));
        }
        _ => panic!("a set request"),
    }
    assert!(matches!(stop::run(), Command::Stop));
}

#[test]
fn request_refuses_blur_outside_one_to_thirty() {
    assert!(set_request("/c/current.png".to_string(), "fill".to_string(), &None, 0).is_none());
    assert!(set_request("/c/current.png".to_string(), "fill".to_string(), &None, 31).is_none());
    assert!(set_request("/c/current.png".to_string(), "fill".to_string(), &None, 1).is_some());
    assert!(set_request("/c/current.png".to_string(), "fill".to_string(), &None, 30).is_some());
    assert!(is_valid_blur(8) && !is_valid_blur(0) && !is_valid_blur(31));
}

#[test]
fn only_swaybg_is_a_known_backend() {
    assert!(is_known_backend("swaybg"));
    assert!(!is_known_backend("feh"));
}

struct RecordingBackend {
    log: std::sync::Arc<std::sync::Mutex<Vec<(String, String)>>>,
}

impl wallman::backend::WallpaperBackend for RecordingBackend {
    fn set(&mut self, image: &str, mode: &str) {
        self.log.lock().unwrap().push((image.to_string(), mode.to_string()));
    }

    fn stop(&mut self) {
        self.log.lock().unwrap().push(("stop".to_string(), String::new()));
    }
}

#[test]
fn controller_forwards_requests_to_its_backend() {
    let log = std::sync::Arc::new(std::sync::Mutex::new(Vec::new()));
    let backend: Box<dyn wallman::backend::WallpaperBackend> = Box::new(RecordingBackend { log: log.clone() });
    let mut controller = wallman::backend::WallpaperController::new(backend);
    controller.set_wallpaper("/w.png", "fit");
    assert_eq!(*log.lock().unwrap(), vec![("/w.png".to_string(), "fit".to_string())]);
    controller.set_wallpaper("/v.png", "tile");
    assert_eq!(
        *log.lock().unwrap(),
        vec![("/w.png".to_string(), "fit".to_string()), ("/v.png".to_string(), "tile".to_string())]
    );
}

fn gray_source(layout: ColorLayout, bytes_per_pixel: usize, w: u32, h: u32) -> SourceImage {
    let bytes = vec![0x40u8; bytes_per_pixel * w as usize * h as usize];
    SourceImage::from_raw(layout, w, h, bytes).unwrap()
}

#[test]
fn source_image_needs_exactly_its_pixels() {
    assert!(SourceImage::from_raw(ColorLayout::Rgb8, 2, 2, vec![0; 12]).is_some());
    assert!(SourceImage::from_raw(ColorLayout::Rgb8, 2, 2, vec![0; 11]).is_none());
    assert!(SourceImage::from_raw(ColorLayout::Rgba16, 2, 2, vec![0; 32]).is_some());
    assert!(SourceImage::from_raw(ColorLayout::Rgba16, 2, 2, vec![0; 16]).is_none());
}

#[test]
fn small_source_is_cached_as_it_is() {
    let img = SourceImage::from_raw(ColorLayout::La8, 3, 1, vec![1, 2, 3, 4, 5, 6]).unwrap();
    let cached = cached_source(img);
    assert_eq!((cached.layout, cached.width, cached.height), (ColorLayout::La8, 3, 1));
    assert_eq!(cached.bytes, vec![1, 2, 3, 4, 5, 6]);
}

#[test]
fn large_source_is_scaled_to_fit_keeping_its_layout() {
    let cached = cached_source(gray_source(ColorLayout::L8, 1, 7680, 20));
    assert_eq!((cached.layout, cached.width, cached.height), (ColorLayout::L8, 3840, 10));
    assert_eq!(cached.bytes.len(), 3840 * 10);
    assert!(cached.bytes.iter().all(|&b| b == 0x40));
    let deep = cached_source(gray_source(ColorLayout::Rgba16, 8, 20, 4000));
    assert_eq!((deep.layout, deep.width, deep.height), (ColorLayout::Rgba16, 19, 3840));
    assert_eq!(deep.bytes.len(), 19 * 3840 * 8);
    assert!(can_resize_within(ColorLayout::Rgba16, 20, 4000, MAX_SOURCE_DIMENSION, MAX_SOURCE_DIMENSION));
}

#[test]
fn sixteen_bit_samples_keep_their_value_when_scaled() {
    let sample = 0x1234u16.to_ne_bytes();
    let bytes: Vec<u8> = (0..40 * 4000 * 3).flat_map(|_| sample).collect();
    let img = SourceImage::from_raw(ColorLayout::Rgb16, 40, 4000, bytes).unwrap();
    let cached = cached_source(img);
    assert_eq!((cached.layout, cached.width, cached.height), (ColorLayout::Rgb16, 38, 3840));
    assert!(cached.bytes.chunks_exact(2).all(|c| u16::from_ne_bytes([c[0], c[1]]) == 0x1234));
}
