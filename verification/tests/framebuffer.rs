use chip8::chip8::Chip8;
use chip8::display::Display;

#[test]
fn new_display_is_blank_and_not_dirty() {
    let d = Display::new();
    assert!(!d.is_dirty());
    for x in 0..64u8 {
        assert!(!d.pixel(x, 17));
    }
}

#[test]
fn set_pixel_xor_toggles_and_reports() {
    let mut d = Display::new();
    // a set bit flips the pixel and reports the flip
    assert!(d.set_pixel_xor(3, 4, true));
    assert!(d.pixel(3, 4));
    assert!(d.is_dirty());
    // a clear bit leaves the pixel alone and reports no flip
    assert!(!d.set_pixel_xor(3, 4, false));
    assert!(d.pixel(3, 4));
    // a second set bit flips it back off
    assert!(d.set_pixel_xor(3, 4, true));
    assert!(!d.pixel(3, 4));
}

#[test]
fn set_pixel_xor_wraps_coordinates() {
    let mut d = Display::new();
    d.set_pixel_xor(67, 33, true);
    assert!(d.pixel(3, 1));
}

#[test]
fn clear_twice_is_clear_once() {
    let mut d = Display::new();
    d.set_pixel_xor(10, 20, true);
    d.clear();
    assert!(d.is_dirty());
    assert!(!d.pixel(10, 20));
    d.reset_dirty_flag();
    d.clear();
    assert!(d.is_dirty());
    for x in 0..64u8 {
        assert!(!d.pixel(x, 20));
    }
}

#[test]
fn clear_opcode_marks_dirty() {
    let mut m = Chip8::new(vec![0x00, 0xE0]);
    assert!(!m.should_render());
    m.cycle().unwrap();
    assert!(m.should_render());
    m.reset_dirty_flag();
    assert!(!m.should_render());
}

#[test]
fn draw_twice_restores_pixels() {
    // LD I=0x206 ; DRW V0,V0,1 ; DRW V0,V0,1 ; sprite byte 0xFF
    let mut m = Chip8::new(vec![0xA2, 0x06, 0xD0, 0x01, 0xD0, 0x01, 0xFF]);
    m.cycle().unwrap();
    m.cycle().unwrap();
    for x in 0..8u8 {
        assert!(m.pixel(x, 0));
    }
    assert_eq!(m.get_v(15), 1);
    assert!(m.should_render());
    m.cycle().unwrap();
    for x in 0..8u8 {
        assert!(!m.pixel(x, 0));
    }
    assert_eq!(m.get_v(15), 1);
}

#[test]
fn draw_wraps_at_both_edges() {
    // V0=63, V1=31, LD I=0x20A, DRW V0,V1,2 with rows 0x81, 0x80
    let rom = vec![
        0x60, 0x3F, 0x61, 0x1F, 0xA2, 0x0A, 0xD0, 0x12, 0x00, 0x00, 0x81, 0x80,
    ];
    let mut m = Chip8::new(rom);
    for _ in 0..4 {
        m.cycle().unwrap();
    }
    // first row at y=31: bits at columns 63 and (63+7)%64 == 6
    assert!(m.pixel(63, 31));
    assert!(m.pixel(6, 31));
    assert!(!m.pixel(0, 31));
    // second row wraps to y=0: bit at column 63 only
    assert!(m.pixel(63, 0));
    assert!(!m.pixel(6, 0));
    assert_eq!(m.get_v(15), 1);
}

#[test]
fn draw_of_empty_sprite_reports_no_flip() {
    // DRW with height 1 over a zero byte: nothing flips, VF stays 0
    let mut m = Chip8::new(vec![0xA3, 0x00, 0xD0, 0x01]);
    m.cycle().unwrap();
    m.cycle().unwrap();
    assert_eq!(m.get_v(15), 0);
    assert!(m.should_render());
}
