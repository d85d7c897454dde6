use chip8::{Fault, KeySnapshot, Outcome, PhysicalKey, CHIP8};

fn no_keys() -> KeySnapshot {
    KeySnapshot { held: [false; 16], quit: false }
}

fn with_program(program: &[u8]) -> CHIP8 {
    let mut c = CHIP8::new();
    c.load_program(program).unwrap();
    c
}

fn step(c: &mut CHIP8) -> Result<Outcome, Fault> {
    c.cycle_with(&no_keys(), 0)
}

#[test]
fn set_then_wrapping_add() {
    let mut c = with_program(&[0x60, 0x10, 0x70, 0x05]);
    assert_eq!(step(&mut c), Ok(Outcome::Executed));
    assert_eq!(step(&mut c), Ok(Outcome::Executed));
    assert_eq!(c.variables[0], 0x15);
    assert_eq!(c.pc, 0x204);
}

#[test]
fn add_immediate_wraps_without_flag() {
    let mut c = with_program(&[0x70, 0x02]);
    c.variables[0] = 0xFF;
    c.variables[0xF] = 0x7;
    step(&mut c).unwrap();
    assert_eq!(c.variables[0], 0x01);
    assert_eq!(c.variables[0xF], 0x7);
}

#[test]
fn add_registers_sets_carry() {
    let mut c = with_program(&[0x80, 0x14]);
    c.variables[0] = 0xFF;
    c.variables[1] = 0x01;
    step(&mut c).unwrap();
    assert_eq!(c.variables[0], 0x00);
    assert_eq!(c.variables[0xF], 1);
}

#[test]
fn add_registers_without_carry_clears_flag() {
    let mut c = with_program(&[0x80, 0x14]);
    c.variables[0] = 0x10;
    c.variables[1] = 0x20;
    c.variables[0xF] = 1;
    step(&mut c).unwrap();
    assert_eq!(c.variables[0], 0x30);
    assert_eq!(c.variables[0xF], 0);
}

#[test]
fn subtract_registers_borrows() {
    let mut c = with_program(&[0x80, 0x15]);
    c.variables[0] = 0x05;
    c.variables[1] = 0x0A;
    step(&mut c).unwrap();
    assert_eq!(c.variables[0], 0xFB);
    assert_eq!(c.variables[0xF], 0);
}

#[test]
fn subtract_registers_equal_values_no_borrow() {
    let mut c = with_program(&[0x80, 0x15]);
    c.variables[0] = 0x0A;
    c.variables[1] = 0x0A;
    step(&mut c).unwrap();
    assert_eq!(c.variables[0], 0x00);
    assert_eq!(c.variables[0xF], 1);
}

#[test]
fn reverse_subtract() {
    let mut c = with_program(&[0x80, 0x17, 0x82, 0x37]);
    c.variables[0] = 0x05;
    c.variables[1] = 0x0A;
    c.variables[2] = 0x0A;
    c.variables[3] = 0x05;
    step(&mut c).unwrap();
    assert_eq!(c.variables[0], 0x05);
    assert_eq!(c.variables[0xF], 1);
    step(&mut c).unwrap();
    assert_eq!(c.variables[2], 0xFB);
    assert_eq!(c.variables[0xF], 0);
}

#[test]
fn shifts_move_bit_into_flag() {
    let mut c = with_program(&[0x80, 0x06, 0x81, 0x0E]);
    c.variables[0] = 0b1000_0011;
    c.variables[1] = 0b1000_0001;
    step(&mut c).unwrap();
    assert_eq!(c.variables[0], 0b0100_0001);
    assert_eq!(c.variables[0xF], 1);
    step(&mut c).unwrap();
    assert_eq!(c.variables[1], 0b0000_0010);
    assert_eq!(c.variables[0xF], 1);
}

#[test]
fn flag_register_as_destination_keeps_result() {
    let mut c = with_program(&[0x8F, 0x14]);
    c.variables[0xF] = 0xFF;
    c.variables[1] = 0x02;
    step(&mut c).unwrap();
    assert_eq!(c.variables[0xF], 0x01);
}

#[test]
fn logic_operations() {
    let mut c = with_program(&[0x80, 0x11, 0x82, 0x32, 0x84, 0x53, 0x86, 0x70]);
    c.variables = [0xF0, 0x0F, 0xF0, 0x3C, 0xFF, 0x0F, 0x00, 0x42, 0, 0, 0, 0, 0, 0, 0, 0];
    for _ in 0..4 {
        step(&mut c).unwrap();
    }
    assert_eq!(c.variables[0], 0xFF);
    assert_eq!(c.variables[2], 0x30);
    assert_eq!(c.variables[4], 0xF0);
    assert_eq!(c.variables[6], 0x42);
}

#[test]
fn clear_screen_blanks_display() {
    let mut c = with_program(&[0x00, 0xE0]);
    c.display[0][0] = true;
    c.display[63][31] = true;
    c.display[10][20] = true;
    assert_eq!(step(&mut c), Ok(Outcome::Redraw));
    assert_eq!(c.display, [[false; 32]; 64]);
}

#[test]
fn drawing_twice_restores_display() {
    // I = glyph "0"; draw 5 rows at (V0, V1) = (3, 4) twice.
    let mut c = with_program(&[0xA0, 0x50, 0xD0, 0x15, 0xD0, 0x15]);
    c.variables[0] = 3;
    c.variables[1] = 4;
    c.display[5][4] = true;
    let before = c.display;
    step(&mut c).unwrap();
    assert_eq!(step(&mut c), Ok(Outcome::Redraw));
    assert_eq!(c.variables[0xF], 1);
    assert!(c.display[3][4]);
    assert!(!c.display[5][4]);
    assert!(c.display[3][5] && !c.display[4][5] && c.display[6][5]);
    assert_eq!(step(&mut c), Ok(Outcome::Redraw));
    assert_eq!(c.display, before);
    assert_eq!(c.variables[0xF], 1);
}

#[test]
fn draw_on_blank_display_sets_no_flag() {
    let mut c = with_program(&[0xA0, 0x50, 0xD0, 0x15]);
    c.variables[0xF] = 1;
    step(&mut c).unwrap();
    step(&mut c).unwrap();
    assert_eq!(c.variables[0xF], 0);
    let lit: usize = c.display.iter().map(|col| col.iter().filter(|p| **p).count()).sum();
    assert_eq!(lit, 14);
}

#[test]
fn draw_clips_at_right_and_bottom_edges() {
    let mut c = with_program(&[0xA3, 0x00, 0xD0, 0x12]);
    c.memory[0x300] = 0xFF;
    c.memory[0x301] = 0xFF;
    c.variables[0] = 60;
    c.variables[1] = 31;
    step(&mut c).unwrap();
    step(&mut c).unwrap();
    for x in 60..64 {
        assert!(c.display[x][31]);
    }
    for x in 0..4 {
        assert!(!c.display[x][31]);
        assert!(!c.display[x][0]);
    }
    assert!(!c.display[60][0]);
    assert_eq!(c.variables[0xF], 0);
}

#[test]
fn draw_origin_wraps_modulo_screen() {
    let mut c = with_program(&[0xA3, 0x00, 0xD0, 0x11]);
    c.memory[0x300] = 0x80;
    c.variables[0] = 64 + 2;
    c.variables[1] = 32 + 5;
    step(&mut c).unwrap();
    step(&mut c).unwrap();
    assert!(c.display[2][5]);
}

#[test]
fn draw_sprite_directly_reports_collision() {
    let mut c = CHIP8::new();
    c.index = 0x50;
    assert!(!c.draw_sprite(0, 0, 5));
    assert!(c.draw_sprite(0, 0, 5));
    assert_eq!(c.display, [[false; 32]; 64]);
}

#[test]
fn wait_for_key_replays_without_key() {
    let mut c = with_program(&[0xF3, 0x0A]);
    let pc = c.pc;
    assert_eq!(step(&mut c), Ok(Outcome::Executed));
    assert_eq!(c.pc, pc);
    assert_eq!(c.variables[3], 0);
}

#[test]
fn wait_for_key_takes_lowest_held_key() {
    let mut c = with_program(&[0xF3, 0x0A]);
    let keys = KeySnapshot::from_keys(&[PhysicalKey::V, PhysicalKey::E]);
    assert_eq!(c.cycle_with(&keys, 0), Ok(Outcome::Executed));
    assert_eq!(c.variables[3], 0x6);
    assert_eq!(c.pc, 0x202);
}

#[test]
fn call_then_return_restores_pc() {
    let mut c = with_program(&[0x23, 0x00]);
    c.memory[0x300] = 0x00;
    c.memory[0x301] = 0xEE;
    step(&mut c).unwrap();
    assert_eq!(c.pc, 0x300);
    assert_eq!(c.stack, vec![0x202]);
    step(&mut c).unwrap();
    assert_eq!(c.pc, 0x202);
    assert!(c.stack.is_empty());
}

#[test]
fn return_with_empty_stack_faults() {
    let mut c = with_program(&[0x00, 0xEE]);
    assert_eq!(step(&mut c), Err(Fault::StackUnderflow { address: 0x200 }));
    assert_eq!(c.pc, 0x200);
}

#[test]
fn unknown_instructions_fault() {
    for word in [0x0123u16, 0x5121, 0x800F, 0x9AB1, 0xE0FF, 0xF0FF] {
        let mut c = with_program(&[(word >> 8) as u8, word as u8]);
        assert_eq!(
            step(&mut c),
            Err(Fault::UnknownInstruction { word, address: 0x200 })
        );
        assert_eq!(c.pc, 0x200);
    }
}

#[test]
fn jumps() {
    let mut c = with_program(&[0x14, 0x56]);
    step(&mut c).unwrap();
    assert_eq!(c.pc, 0x456);
    let mut c = with_program(&[0xB4, 0x56]);
    c.variables[0] = 0x10;
    c.variables[4] = 0x99;
    step(&mut c).unwrap();
    assert_eq!(c.pc, 0x466);
}

#[test]
fn conditional_skips() {
    let mut c = with_program(&[0x30, 0x07, 0, 0, 0x40, 0x07, 0x51, 0x20, 0, 0, 0x91, 0x20]);
    c.variables[0] = 0x07;
    c.variables[1] = 0x09;
    c.variables[2] = 0x09;
    step(&mut c).unwrap();
    assert_eq!(c.pc, 0x204);
    step(&mut c).unwrap();
    assert_eq!(c.pc, 0x206);
    step(&mut c).unwrap();
    assert_eq!(c.pc, 0x20A);
    step(&mut c).unwrap();
    assert_eq!(c.pc, 0x20C);
}

#[test]
fn key_skips() {
    let keys = KeySnapshot::from_keys(&[PhysicalKey::Key4]);
    let mut c = with_program(&[0xE0, 0x9E, 0, 0, 0xE0, 0xA1, 0xE1, 0xA1]);
    c.variables[0] = 0xC;
    c.variables[1] = 0x20;
    c.cycle_with(&keys, 0).unwrap();
    assert_eq!(c.pc, 0x204);
    c.cycle_with(&keys, 0).unwrap();
    assert_eq!(c.pc, 0x206);
    c.cycle_with(&keys, 0).unwrap();
    assert_eq!(c.pc, 0x20A);
}

#[test]
fn index_and_font_address() {
    let mut c = with_program(&[0xA1, 0x23, 0xF0, 0x1E, 0xF1, 0x29]);
    c.variables[0] = 0x10;
    c.variables[1] = 0xA;
    step(&mut c).unwrap();
    assert_eq!(c.index, 0x123);
    step(&mut c).unwrap();
    assert_eq!(c.index, 0x133);
    step(&mut c).unwrap();
    assert_eq!(c.index, 0x050 + 0xA * 5);
}

#[test]
fn index_add_wraps_at_sixteen_bits() {
    let mut c = with_program(&[0xF0, 0x1E]);
    c.index = 0xFFFF;
    c.variables[0] = 2;
    step(&mut c).unwrap();
    assert_eq!(c.index, 1);
}

#[test]
fn decimal_digits_stored_at_index() {
    let mut c = with_program(&[0xF0, 0x33]);
    c.variables[0] = 254;
    c.index = 0x300;
    step(&mut c).unwrap();
    assert_eq!(&c.memory[0x300..0x303], &[2, 5, 4]);
}

#[test]
fn decimal_digits_wrap_at_end_of_memory() {
    let mut c = with_program(&[0xF0, 0x33]);
    c.variables[0] = 107;
    c.index = 0xFFF;
    step(&mut c).unwrap();
    assert_eq!(c.memory[0xFFF], 1);
    assert_eq!(c.memory[0x000], 0);
    assert_eq!(c.memory[0x001], 7);
}

#[test]
fn store_and_load_registers() {
    let mut c = with_program(&[0xF2, 0x55, 0x60, 0x00, 0x61, 0x00, 0xF1, 0x65]);
    c.variables[0] = 0x11;
    c.variables[1] = 0x22;
    c.variables[2] = 0x33;
    c.variables[3] = 0x44;
    c.index = 0x400;
    step(&mut c).unwrap();
    assert_eq!(&c.memory[0x400..0x404], &[0x11, 0x22, 0x33, 0x00]);
    assert_eq!(c.index, 0x400);
    step(&mut c).unwrap();
    step(&mut c).unwrap();
    assert_eq!(c.variables[0], 0);
    step(&mut c).unwrap();
    assert_eq!(&c.variables[0..4], &[0x11, 0x22, 0x33, 0x44]);
}

#[test]
fn timer_registers() {
    let mut c = with_program(&[0xF0, 0x15, 0xF1, 0x18, 0xF2, 0x07]);
    c.variables[0] = 30;
    c.variables[1] = 40;
    step(&mut c).unwrap();
    step(&mut c).unwrap();
    assert_eq!((c.delay_timer, c.sound_timer), (30, 40));
    c.tick_timers();
    step(&mut c).unwrap();
    assert_eq!(c.variables[2], 29);
}

#[test]
fn random_masked_by_immediate() {
    let mut c = with_program(&[0xC0, 0xF0]);
    c.cycle_with(&no_keys(), 0x3C).unwrap();
    assert_eq!(c.variables[0], 0x30);
}

#[test]
fn random_from_generator_respects_mask() {
    let mut seen = [false; 256];
    for _ in 0..200 {
        let mut c = with_program(&[0xC0, 0x0F]);
        assert_eq!(c.cycle(&no_keys()), Ok(Outcome::Executed));
        assert!(c.variables[0] <= 0x0F);
        seen[c.variables[0] as usize] = true;
    }
    assert!(seen.iter().filter(|s| **s).count() > 1);
}

#[test]
fn stop_key_halts_without_executing() {
    let mut c = with_program(&[0x60, 0x10]);
    let keys = KeySnapshot::from_keys(&[PhysicalKey::Escape]);
    assert_eq!(c.cycle(&keys), Ok(Outcome::Quit));
    assert_eq!(c.pc, 0x200);
    assert_eq!(c.variables[0], 0);
}

#[test]
fn fetch_is_big_endian_and_wraps() {
    let mut c = CHIP8::new();
    c.memory[0xFFF] = 0xAB;
    c.memory[0x000] = 0xCD;
    c.pc = 0xFFF;
    assert_eq!(c.fetch(), 0xABCD);
    c.pc = 0x050;
    assert_eq!(c.fetch(), 0xF090);
}

#[test]
fn execute_directly_after_fetch() {
    let mut c = CHIP8::new();
    c.pc = 0x202;
    assert_eq!(c.execute(0x6A42, &no_keys(), 0), Ok(Outcome::Executed));
    assert_eq!(c.variables[0xA], 0x42);
    assert_eq!(
        c.execute(0xF0FF, &no_keys(), 0),
        Err(Fault::UnknownInstruction { word: 0xF0FF, address: 0x200 })
    );
}
