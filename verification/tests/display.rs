use chip8::machine::Chip8;
use chip8::monitor::{draw_monitor, Monitor, HEIGHT, WIDTH};
use chip8::step::Outcome;

fn pixel(mon: &Monitor, x: usize, y: usize) -> bool {
    mon.pixels[x + WIDTH * y]
}

#[test]
fn monitor_starts_dark_and_set_pixel_toggles() {
    let mut mon = Monitor::new();
    assert_eq!(mon.pixels.len(), WIDTH * HEIGHT);
    assert!(mon.pixels.iter().all(|&p| !p));
    mon.set_pixel(3, 5);
    assert!(pixel(&mon, 3, 5));
    mon.set_pixel(3, 5);
    assert!(!pixel(&mon, 3, 5));
}

#[test]
fn clear_turns_every_pixel_off() {
    let mut mon = Monitor::new();
    mon.set_pixel(0, 0);
    mon.set_pixel(63, 31);
    mon.clear();
    assert!(mon.pixels.iter().all(|&p| !p));
}

#[test]
fn xor_sprite_draws_rows_left_to_right() {
    let mut mon = Monitor::new();
    let col = mon.xor_sprite(8, 2, &vec![0b1010_0001]);
    assert!(!col);
    assert!(pixel(&mon, 8, 2));
    assert!(!pixel(&mon, 9, 2));
    assert!(pixel(&mon, 10, 2));
    assert!(!pixel(&mon, 11, 2));
    assert!(pixel(&mon, 15, 2));
    assert!(!pixel(&mon, 16, 2));
}

#[test]
fn xor_sprite_wraps_at_the_edges() {
    let mut mon = Monitor::new();
    mon.xor_sprite(60, 31, &vec![0xFF, 0xFF]);
    for x in [60, 61, 62, 63, 0, 1, 2, 3] {
        assert!(pixel(&mon, x, 31));
        assert!(pixel(&mon, x, 0));
    }
    assert!(!pixel(&mon, 4, 31));
    assert!(!pixel(&mon, 59, 0));
}

#[test]
fn drawing_twice_restores_the_display() {
    let mut mon = Monitor::new();
    mon.set_pixel(0, 1);
    let before = mon.pixels.clone();
    let sprite = vec![0xF0, 0x90, 0xF0];
    let first = mon.xor_sprite(0, 0, &sprite);
    assert!(first);
    let second = mon.xor_sprite(0, 0, &sprite);
    assert!(second);
    assert_eq!(mon.pixels, before);
}

#[test]
fn second_draw_collides_exactly_when_a_lit_cell_was_off() {
    let mut mon = Monitor::new();
    for x in 0..4 {
        mon.set_pixel(x, 0);
    }
    let sprite = vec![0xF0];
    let first = mon.xor_sprite(0, 0, &sprite);
    assert!(first);
    let second = mon.xor_sprite(0, 0, &sprite);
    assert!(!second);
}

#[test]
fn draw_opcode_reads_sprite_at_index_and_reports_collision() {
    let mut m = Chip8::new();
    m.load_default_sprites();
    let mut mon = Monitor::new();
    m.load_program(&vec![0xD0, 0x15, 0xD0, 0x15]);
    m.registers[0] = 2;
    m.registers[1] = 3;
    m.index_register = 0;
    let o = m.step(&mut mon, 0);
    assert_eq!(o, Outcome::Ran);
    assert_eq!(m.registers[0xF], 0);
    assert!(pixel(&mon, 2, 3));
    assert!(pixel(&mon, 5, 3));
    assert!(!pixel(&mon, 3, 4));
    let o = m.step(&mut mon, 0);
    assert_eq!(o, Outcome::Ran);
    assert_eq!(m.registers[0xF], 1);
    assert!(mon.pixels.iter().all(|&p| !p));
}

#[test]
fn clear_display_opcode_wipes_the_monitor() {
    let mut m = Chip8::new();
    let mut mon = Monitor::new();
    mon.set_pixel(10, 10);
    m.load_program(&vec![0x00, 0xE0]);
    let o = m.step(&mut mon, 0);
    assert_eq!(o, Outcome::Ran);
    assert!(mon.pixels.iter().all(|&p| !p));
}

#[test]
fn draw_monitor_renders_black_and_white_rgba() {
    let mut mon = Monitor::new();
    mon.set_pixel(1, 0);
    let mut frame: Vec<u8> = vec![0; 4 * WIDTH * HEIGHT];
    draw_monitor(&mon, &mut frame);
    assert_eq!(&frame[0..4], &[0x00, 0x00, 0x00, 0xFF]);
    assert_eq!(&frame[4..8], &[0xFF, 0xFF, 0xFF, 0xFF]);
    assert_eq!(&frame[8..12], &[0x00, 0x00, 0x00, 0xFF]);
}
