use wallman::colors::palette_file_contents;
use wallman::image_ops::{
    can_resize_exact, can_resize_to_fill, can_resize_within, crop, filled, image_allocatable, ColorLayout, RgbaImage,
};
use wallman::renderer::MonitorJob;
use wallman::worker::{
    backdrop_base, center_placement, distinct_paths, extract_colors, finish_backdrop, render_wallpaper, rgba_to_xrgb,
    can_scale, scale_image, CenterPlacement, ScaleMode,
};

fn solid(w: u32, h: u32, px: [u8; 4]) -> RgbaImage {
    filled(w, h, px)
}

fn pixel(img: &RgbaImage, x: u32, y: u32) -> [u8; 4] {
    let i = ((y * img.width() + x) * 4) as usize;
    let b = img.as_bytes();
    [b[i], b[i + 1], b[i + 2], b[i + 3]]
}

#[test]
fn palette_file_lists_first_five_colors() {
    assert_eq!(palette_file_contents(&[]), None);
    let one = palette_file_contents(&[(0x23, 0x3b, 0x28)]).unwrap();
    assert_eq!(one, "# Wallman color palette\n# Generated from current wallpaper\n\nprimary = \"#233b28\"\n");
    let six = palette_file_contents(&[(0, 0, 0), (255, 255, 255), (1, 2, 3), (16, 32, 48), (10, 11, 12), (9, 9, 9)]).unwrap();
    assert_eq!(
        six,
        "# Wallman color palette\n# Generated from current wallpaper\n\n\
         primary = \"#000000\"\nsecondary = \"#ffffff\"\ntertiary = \"#010203\"\n\
         quaternary = \"#102030\"\nquinary = \"#0a0b0c\"\n"
    );
}

#[test]
fn xrgb_is_native_word_per_pixel() {
    let out = rgba_to_xrgb(&[0x11, 0x22, 0x33, 0x44, 1, 2, 3, 4, 9]);
    let mut expected = 0x0011_2233u32.to_ne_bytes().to_vec();
    expected.extend_from_slice(&0x0001_0203u32.to_ne_bytes());
    assert_eq!(out, expected);
}

#[test]
fn mode_names() {
    assert_eq!(ScaleMode::from_name("fit"), ScaleMode::Fit);
    assert_eq!(ScaleMode::from_name("stretch"), ScaleMode::Stretch);
    assert_eq!(ScaleMode::from_name("center"), ScaleMode::Center);
    assert_eq!(ScaleMode::from_name("tile"), ScaleMode::Tile);
    assert_eq!(ScaleMode::from_name("fill"), ScaleMode::Fill);
    assert_eq!(ScaleMode::from_name("anything"), ScaleMode::Fill);
}

#[test]
fn center_placement_crops_large_and_pads_small() {
    assert_eq!(
        center_placement(3000, 1000, 1920, 1080),
        CenterPlacement { crop_x: 540, crop_y: 0, crop_w: 1920, crop_h: 1000, paste_x: 0, paste_y: 40 }
    );
}

#[test]
fn image_from_raw_checks_the_size() {
    assert!(RgbaImage::from_raw(2, 2, vec![0; 16]).is_some());
    assert!(RgbaImage::from_raw(2, 2, vec![0; 15]).is_none());
}

#[test]
fn crop_clips_to_the_image() {
    let bytes: Vec<u8> = (0..(3 * 2 * 4)).map(|i| i as u8).collect();
    let img = RgbaImage::from_raw(3, 2, bytes).unwrap();
    let c = crop(&img, 1, 1, 5, 5);
    assert_eq!((c.width(), c.height()), (2, 1));
    assert_eq!(c.as_bytes(), &[16, 17, 18, 19, 20, 21, 22, 23]);
}

#[test]
fn stretch_gives_the_surface_size() {
    let img = solid(4, 2, [200, 10, 10, 255]);
    let out = scale_image(&img, ScaleMode::Stretch, 8, 8);
    assert_eq!((out.width(), out.height()), (8, 8));
    assert_eq!(pixel(&out, 3, 3), [200, 10, 10, 255]);
}

#[test]
fn fit_centers_on_black() {
    let img = solid(4, 2, [200, 10, 10, 255]);
    let out = scale_image(&img, ScaleMode::Fit, 8, 8);
    assert_eq!((out.width(), out.height()), (8, 8));
    assert_eq!(pixel(&out, 0, 0), [0, 0, 0, 255]);
    assert_eq!(pixel(&out, 4, 4), [200, 10, 10, 255]);
}

#[test]
fn center_pads_small_images_with_black() {
    let img = solid(2, 2, [1, 2, 3, 255]);
    let out = scale_image(&img, ScaleMode::Center, 4, 4);
    assert_eq!(pixel(&out, 0, 0), [0, 0, 0, 255]);
    assert_eq!(pixel(&out, 1, 1), [1, 2, 3, 255]);
    assert_eq!(pixel(&out, 2, 2), [1, 2, 3, 255]);
    assert_eq!(pixel(&out, 3, 3), [0, 0, 0, 255]);
}

#[test]
fn tile_repeats_the_image() {
    let bytes = vec![9, 9, 9, 255, 7, 7, 7, 255];
    let img = RgbaImage::from_raw(2, 1, bytes).unwrap();
    let out = scale_image(&img, ScaleMode::Tile, 3, 2);
    assert_eq!(pixel(&out, 0, 0), [9, 9, 9, 255]);
    assert_eq!(pixel(&out, 1, 1), [7, 7, 7, 255]);
    assert_eq!(pixel(&out, 2, 1), [9, 9, 9, 255]);
}

#[test]
fn fill_covers_the_surface() {
    let img = solid(4, 2, [5, 6, 7, 255]);
    let out = scale_image(&img, ScaleMode::Fill, 3, 3);
    assert_eq!((out.width(), out.height()), (3, 3));
    assert_eq!(pixel(&out, 1, 1), [5, 6, 7, 255]);
}

#[test]
fn wallpaper_and_backdrop_buffers() {
    let img = solid(4, 4, [0x10, 0x20, 0x30, 255]);
    let wp = render_wallpaper(&img, "stretch", 6, 5);
    assert_eq!(wp.len(), 6 * 5 * 4);
    assert_eq!(&wp[0..4], &0x0010_2030u32.to_ne_bytes());
    let base = backdrop_base(&img, "fill", 10, 7);
    assert_eq!((base.width(), base.height()), (5, 3));
    let bd = finish_backdrop(&base, 10, 7);
    assert_eq!(bd.len(), 10 * 7 * 4);
}

#[test]
fn palette_of_a_solid_image() {
    let img = solid(20, 20, [40, 80, 120, 255]);
    let colors = extract_colors(&img);
    assert!(!colors.is_empty() && colors.len() <= 5);
    let (r, g, b) = colors[0];
    assert!((r as i32 - 40).abs() <= 8 && (g as i32 - 80).abs() <= 8 && (b as i32 - 120).abs() <= 8);
}

#[test]
fn each_image_is_decoded_once() {
    let job = |name: &str, path: &str| MonitorJob {
        name: name.to_string(),
        path: path.to_string(),
        mode: "fill".to_string(),
        blur: 8,
        wp_width: 1,
        wp_height: 1,
        bd_width: 1,
        bd_height: 1,
    };
    let paths = distinct_paths(&[job("a", "/x.png"), job("b", "/y.png"), job("c", "/x.png")]);
    assert_eq!(paths, vec!["/x.png".to_string(), "/y.png".to_string()]);
}

#[test]
fn allocation_bounds_follow_the_buffers_of_resampling() {
    let big = u32::MAX;
    assert!(image_allocatable(3840, 2160));
    assert!(can_resize_exact(3840, 2160, 1920, 1080));
    assert!(can_resize_exact(0, 0, 1920, 1080));
    assert!(can_resize_within(ColorLayout::Rgba8, 3840, 2160, 800, 600));
    assert!(can_resize_within(ColorLayout::Rgba8, 3840, 2160, 0, 0));
    assert!(can_resize_to_fill(1920, 1080, 2560, 1440));
    assert!(can_resize_to_fill(10, 0, 5, 5) == image_allocatable(1, big));
    assert!(!can_resize_to_fill(0, 0, 2, 2));
    assert!(can_resize_to_fill(0, 0, 2, 0));
    assert!(!can_resize_exact(big, 1, 1, big));
    assert!(!can_resize_within(ColorLayout::Rgba8, 1, 1, big, big));
    assert!(!can_resize_to_fill(1, big, big, 1));
    assert!(!image_allocatable(big, big));
}

#[test]
fn wide_image_fills_a_portrait_surface() {
    assert!(can_scale(3840, 1080, ScaleMode::Fill, 1440, 2560));
    assert!(can_scale(3840, 1080, ScaleMode::Fill, 720, 1280));
    let img = solid(384, 108, [0x10, 0x20, 0x30, 255]);
    let wp = render_wallpaper(&img, "fill", 144, 256);
    assert_eq!(wp.len(), 144 * 256 * 4);
    let base = backdrop_base(&img, "fill", 144, 256);
    assert_eq!((base.width(), base.height()), (72, 128));
}

#[test]
fn surfaces_wider_than_eight_thousand_pixels_are_rendered() {
    assert!(can_scale(100, 50, ScaleMode::Stretch, 10000, 2));
    let img = solid(100, 50, [1, 2, 3, 255]);
    let wp = render_wallpaper(&img, "stretch", 10000, 2);
    assert_eq!(wp.len(), 10000 * 2 * 4);
}

#[test]
fn filled_repeats_the_pixel() {
    let img = filled(2, 1, [1, 2, 3, 4]);
    assert_eq!(img.into_raw(), vec![1, 2, 3, 4, 1, 2, 3, 4]);
}
