use wallman::renderer::all_cached;
use wallman::surface::{
    any_surface_closed, buffer_layout, placeholder_size, retire_buffer, take_rerender, wait_for_configure, BufferLayout,
    LayoutError, SurfaceStatus,
};

#[test]
fn configure_marks_rerender_only_on_new_size() {
    let mut s = SurfaceStatus::new();
    s.configure(1, 1920, 1080);
    assert!(s.needs_rerender);
    assert_eq!(s.take_serial(), Some(1));
    assert_eq!(s.configure_serial, None);
    let mut b = SurfaceStatus::new();
    assert!(take_rerender(&mut s, &mut b));
    assert!(!s.needs_rerender);
    s.configure(2, 1920, 1080);
    assert!(!s.needs_rerender);
    assert_eq!(s.configure_serial, Some(2));
    assert!(!take_rerender(&mut s, &mut b));
}

#[test]
fn close_marks_closed() {
    let mut s = SurfaceStatus::new();
    s.close();
    assert!(s.closed);
}

#[test]
fn layout_of_full_hd() {
    assert_eq!(buffer_layout(1920, 1080), Ok(BufferLayout { width: 1920, height: 1080, stride: 7680, size: 7680 * 1080 }));
    assert_eq!(buffer_layout(0, 0), Ok(BufferLayout { width: 0, height: 0, stride: 0, size: 0 }));
}

#[test]
fn layout_errors() {
    assert_eq!(buffer_layout(0x8000_0000, 1), Err(LayoutError::WidthTooLarge));
    assert_eq!(buffer_layout(1, 0x8000_0000), Err(LayoutError::HeightTooLarge));
    assert_eq!(buffer_layout(600_000_000, 1), Err(LayoutError::StrideTooLarge));
    assert_eq!(buffer_layout(20_000, 30_000), Err(LayoutError::SizeTooLarge));
}

#[test]
fn retire_keeps_only_complete_triples() {
    let mut old: Vec<(u8, u16, u32)> = Vec::new();
    retire_buffer(Some(1u8), Some(2u16), None, &mut old);
    assert!(old.is_empty());
    retire_buffer(Some(1u8), Some(2u16), Some(3u32), &mut old);
    assert_eq!(old, vec![(1, 2, 3)]);
}

#[test]
fn placeholder_size_is_four_bytes_per_pixel() {
    assert_eq!(placeholder_size(1920, 1080), Some(1920 * 1080 * 4));
    assert_eq!(placeholder_size(0, 1080), None);
}

#[test]
fn renderer_waits_for_configure_at_most_ten_round_trips() {
    let mut configured = SurfaceStatus::new();
    configured.configure(7, 1920, 1080);
    let fresh = SurfaceStatus::new();
    assert!(wait_for_configure(&[(configured, fresh)], 0));
    assert!(wait_for_configure(&[(configured, configured), (fresh, configured)], 9));
    assert!(!wait_for_configure(&[(fresh, fresh)], 10));
    assert!(!wait_for_configure(&[(configured, configured)], 0));
    assert!(!wait_for_configure(&[], 0));
}

#[test]
fn a_closed_surface_ends_the_renderer() {
    let open = SurfaceStatus::new();
    let mut closed = SurfaceStatus::new();
    closed.close();
    assert!(!any_surface_closed(&[(open, open), (open, open)]));
    assert!(any_surface_closed(&[(open, open), (open, closed)]));
    assert!(!any_surface_closed(&[]));
}

#[test]
fn initial_pass_is_skipped_only_when_every_monitor_was_cached() {
    assert!(all_cached(&[true, true]));
    assert!(!all_cached(&[true, false]));
    assert!(!all_cached(&[]));
}
