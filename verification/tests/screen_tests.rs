use simon_says_seeq_rust::screen::ScreenManager;

#[test]
fn test_screen_creation() {
    let screen = ScreenManager::new().unwrap();
    assert_eq!(screen.get_dimensions(), (128, 64));
}

#[test]
fn test_pixel_operations() {
    let mut screen = ScreenManager::new().unwrap();

    screen.set_pixel(10, 10, true);
    assert!(screen.get_pixel(10, 10));

    screen.set_pixel(10, 10, false);
    assert!(!screen.get_pixel(10, 10));

    screen.set_pixel(200, 200, true);
    assert!(!screen.get_pixel(200, 200));
}

#[test]
fn test_clear() {
    let mut screen = ScreenManager::new().unwrap();

    screen.set_pixel(10, 10, true);
    screen.set_pixel(20, 20, true);

    screen.clear();

    assert!(!screen.get_pixel(10, 10));
    assert!(!screen.get_pixel(20, 20));
}

#[test]
fn test_drawing_primitives() {
    let mut screen = ScreenManager::new().unwrap();

    screen.draw_hline(10, 10, 5);
    for i in 0..5 {
        assert!(screen.get_pixel(10 + i, 10));
    }

    screen.clear();
    screen.draw_vline(10, 10, 5);
    for i in 0..5 {
        assert!(screen.get_pixel(10, 10 + i));
    }

    screen.clear();
    screen.draw_rect(10, 10, 5, 5);

    assert!(screen.get_pixel(10, 10));
    assert!(screen.get_pixel(14, 10));
    assert!(screen.get_pixel(10, 14));
    assert!(screen.get_pixel(14, 14));

    assert!(!screen.get_pixel(12, 12));
}

#[test]
fn frame_is_rgb565_white_on_black() {
    let mut s = ScreenManager::new().unwrap();
    s.set_pixel(3, 2, true);
    s.set_pixel(127, 63, true);
    let frame = s.convert_buffer_to_framebuffer();
    assert_eq!(frame.len(), 128 * 64 * 2);
    let at = |x: usize, y: usize| (frame[(y * 128 + x) * 2], frame[(y * 128 + x) * 2 + 1]);
    assert_eq!(at(3, 2), (0xFF, 0xFF));
    assert_eq!(at(127, 63), (0xFF, 0xFF));
    assert_eq!(at(2, 3), (0x00, 0x00));
    assert_eq!(frame.iter().filter(|b| **b == 0xFF).count(), 4);
}
