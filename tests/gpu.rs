use chip8::gpu::{Gpu, HEIGHT, WIDTH};

#[test]
fn new_screen_is_blank() {
    let gpu = Gpu::new();
    assert_eq!(gpu.screen().len(), WIDTH * HEIGHT);
    assert!(gpu.screen().iter().all(|&p| p == 0));
}

#[test]
fn draw_twice_restores() {
    let mut gpu = Gpu::new();
    gpu.draw(10, 20, &[0x3C]);
    let before = gpu.screen().clone();
    let sprite = [0xFF, 0x81, 0x42];
    assert!(!gpu.draw(8, 9, &sprite));
    assert!(gpu.draw(8, 9, &sprite));
    assert_eq!(gpu.screen(), &before);
}

#[test]
fn draw_twice_on_blank_collides() {
    let mut gpu = Gpu::new();
    assert!(!gpu.draw(0, 0, &[0x01]));
    assert_eq!(gpu.pixel(7, 0), 1);
    assert!(gpu.draw(0, 0, &[0x01]));
    assert_eq!(gpu.pixel(7, 0), 0);
}

#[test]
fn draw_empty_sprite() {
    let mut gpu = Gpu::new();
    assert!(!gpu.draw(5, 5, &[]));
    assert!(!gpu.draw(5, 5, &[0x00, 0x00]));
    assert!(gpu.screen().iter().all(|&p| p == 0));
}

#[test]
fn draw_wraps_around() {
    let mut gpu = Gpu::new();
    gpu.draw(62, 31, &[0xC1, 0x80]);
    assert_eq!(gpu.pixel(62, 31), 1);
    assert_eq!(gpu.pixel(63, 31), 1);
    assert_eq!(gpu.pixel(5, 31), 1);
    assert_eq!(gpu.pixel(0, 31), 0);
    assert_eq!(gpu.pixel(62, 0), 1);
    assert_eq!(gpu.screen().iter().filter(|&&p| p == 1).count(), 4);
}

#[test]
fn draw_large_origin_wraps() {
    let mut gpu = Gpu::new();
    gpu.draw(200, 100, &[0x80]);
    assert_eq!(gpu.pixel(200 % 64, 100 % 32), 1);
}

#[test]
fn clear_turns_everything_off() {
    let mut gpu = Gpu::new();
    gpu.draw(1, 1, &[0xFF; 15]);
    gpu.clear();
    assert!(gpu.screen().iter().all(|&p| p == 0));
}
