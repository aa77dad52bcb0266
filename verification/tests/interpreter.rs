use chip8::decode::{decode, Instr};
use chip8::machine::Chip8;
use chip8::monitor::Monitor;
use chip8::step::{Fault, FaultKind, Outcome};

fn fresh() -> (Chip8, Monitor) {
    let mut m = Chip8::new();
    m.load_default_sprites();
    (m, Monitor::new())
}

fn load(m: &mut Chip8, words: &[u16]) {
    let mut bytes: Vec<u8> = Vec::new();
    for w in words {
        bytes.push((w >> 8) as u8);
        bytes.push((w & 0xFF) as u8);
    }
    m.load_program(&bytes);
}

#[test]
fn new_machine_is_zeroed_at_entry() {
    let m = Chip8::new();
    assert_eq!(m.program_counter, 0x200);
    assert_eq!(m.index_register, 0);
    assert_eq!(m.delay_timer, 0);
    assert_eq!(m.sound_timer, 0);
    assert_eq!(m.stack.len(), 0);
    assert!(m.memory.iter().all(|&b| b == 0));
    assert!(m.registers.iter().all(|&b| b == 0));
    assert_eq!(m.memory.len(), 4096);
    assert_eq!(m.registers.len(), 16);
}

#[test]
fn default_sprites_are_installed() {
    let mut m = Chip8::new();
    m.load_default_sprites();
    assert_eq!(&m.memory[0..5], &[0xF0, 0x90, 0x90, 0x90, 0xF0]);
    assert_eq!(&m.memory[5..10], &[0x20, 0x60, 0x20, 0x20, 0x70]);
    assert_eq!(&m.memory[75..80], &[0xF0, 0x80, 0xF0, 0x80, 0x80]);
    assert!(m.memory[80..].iter().all(|&b| b == 0));
}

#[test]
fn load_program_writes_at_entry() {
    let mut m = Chip8::new();
    m.load_program(&vec![0x12, 0x34, 0x56]);
    assert_eq!(m.memory[0x200], 0x12);
    assert_eq!(m.memory[0x201], 0x34);
    assert_eq!(m.memory[0x202], 0x56);
    assert_eq!(m.memory[0x203], 0x00);
}

#[test]
fn timers_tick_down_to_zero_and_stay() {
    let mut m = Chip8::new();
    m.delay_timer = 2;
    m.sound_timer = 1;
    assert!(m.sound_active());
    m.tick_delay();
    m.tick_sound();
    assert_eq!(m.delay_timer, 1);
    assert_eq!(m.sound_timer, 0);
    assert!(!m.sound_active());
    m.tick_delay();
    m.tick_delay();
    m.tick_sound();
    assert_eq!(m.delay_timer, 0);
    assert_eq!(m.sound_timer, 0);
}

#[test]
fn decode_covers_the_families() {
    assert_eq!(decode(0x0000), Some(Instr::Halt));
    assert_eq!(decode(0x00E0), Some(Instr::ClearDisplay));
    assert_eq!(decode(0x00EE), Some(Instr::Return));
    assert_eq!(decode(0x1ABC), Some(Instr::Jump(0xABC)));
    assert_eq!(decode(0x2123), Some(Instr::Call(0x123)));
    assert_eq!(decode(0x3A42), Some(Instr::SkipEqByte(0xA, 0x42)));
    assert_eq!(decode(0x4A42), Some(Instr::SkipNeByte(0xA, 0x42)));
    assert_eq!(decode(0x5AB0), Some(Instr::SkipEqReg(0xA, 0xB)));
    assert_eq!(decode(0x6A42), Some(Instr::LoadByte(0xA, 0x42)));
    assert_eq!(decode(0x7A42), Some(Instr::AddByte(0xA, 0x42)));
    assert_eq!(decode(0x8AB0), Some(Instr::Move(0xA, 0xB)));
    assert_eq!(decode(0x8AB1), Some(Instr::Or(0xA, 0xB)));
    assert_eq!(decode(0x8AB2), Some(Instr::And(0xA, 0xB)));
    assert_eq!(decode(0x8AB3), Some(Instr::Xor(0xA, 0xB)));
    assert_eq!(decode(0x8AB4), Some(Instr::AddReg(0xA, 0xB)));
    assert_eq!(decode(0x8AB5), Some(Instr::SubXY(0xA, 0xB)));
    assert_eq!(decode(0x8AB6), Some(Instr::ShiftRight(0xA)));
    assert_eq!(decode(0x8AB7), Some(Instr::SubYX(0xA, 0xB)));
    assert_eq!(decode(0x8ABE), Some(Instr::ShiftLeft(0xA)));
    assert_eq!(decode(0x9AB0), Some(Instr::SkipNeReg(0xA, 0xB)));
    assert_eq!(decode(0xA123), Some(Instr::LoadIndex(0x123)));
    assert_eq!(decode(0xB123), Some(Instr::JumpOffset(0x123)));
    assert_eq!(decode(0xCA42), Some(Instr::Random(0xA, 0x42)));
    assert_eq!(decode(0xDAB7), Some(Instr::Draw(0xA, 0xB, 0x7)));
    assert_eq!(decode(0xEA9E), Some(Instr::SkipKeyPressed(0xA)));
    assert_eq!(decode(0xEAA1), Some(Instr::SkipKeyNotPressed(0xA)));
    assert_eq!(decode(0xFA07), Some(Instr::GetDelay(0xA)));
    assert_eq!(decode(0xFA0A), Some(Instr::WaitKey(0xA)));
    assert_eq!(decode(0xFA15), Some(Instr::SetDelay(0xA)));
    assert_eq!(decode(0xFA18), Some(Instr::SetSound(0xA)));
    assert_eq!(decode(0xFA1E), Some(Instr::AddIndex(0xA)));
    assert_eq!(decode(0xFA29), Some(Instr::SpriteAddr(0xA)));
    assert_eq!(decode(0xFA33), Some(Instr::Bcd(0xA)));
    assert_eq!(decode(0xFA55), Some(Instr::RegDump(0xA)));
    assert_eq!(decode(0xFA65), Some(Instr::RegLoad(0xA)));
}

#[test]
fn decode_rejects_undefined_encodings() {
    assert_eq!(decode(0x5AB1), None);
    assert_eq!(decode(0x9AB3), None);
    assert_eq!(decode(0x8AB8), None);
    assert_eq!(decode(0x8ABF), None);
    assert_eq!(decode(0xEA00), None);
    assert_eq!(decode(0xFAFF), None);
    assert_eq!(decode(0x0123), None);
}

#[test]
fn jump_to_self_leaves_state_unchanged() {
    let (mut m, mut mon) = fresh();
    load(&mut m, &[0x1200]);
    let regs_before = m.registers.clone();
    let o = m.step(&mut mon, 0);
    assert_eq!(o, Outcome::Ran);
    assert_eq!(m.program_counter, 0x200);
    assert_eq!(m.registers, regs_before);
    assert_eq!(m.index_register, 0);
    assert_eq!(m.stack.len(), 0);
    assert_eq!(m.delay_timer, 0);
    assert_eq!(m.sound_timer, 0);
}

#[test]
fn add_v0_v1_stores_sum_without_carry() {
    let (mut m, mut mon) = fresh();
    load(&mut m, &[0x8014]);
    m.registers[0] = 5;
    m.registers[1] = 10;
    let o = m.step(&mut mon, 0);
    assert_eq!(o, Outcome::Ran);
    assert_eq!(m.registers[0], 15);
    assert_eq!(m.registers[0xF], 0);
}

#[test]
fn add_reg_sets_carry_and_wraps() {
    let (mut m, mut mon) = fresh();
    load(&mut m, &[0x8014]);
    m.registers[0] = 200;
    m.registers[1] = 100;
    m.step(&mut mon, 0);
    assert_eq!(m.registers[0], 44);
    assert_eq!(m.registers[0xF], 1);
}

#[test]
fn add_immediate_wraps_without_flag() {
    let (mut m, mut mon) = fresh();
    load(&mut m, &[0x70FF]);
    m.registers[0] = 2;
    m.registers[0xF] = 9;
    m.step(&mut mon, 0);
    assert_eq!(m.registers[0], 1);
    assert_eq!(m.registers[0xF], 9);
}

#[test]
fn shift_right_reports_low_bit() {
    let (mut m, mut mon) = fresh();
    load(&mut m, &[0x8306]);
    m.registers[3] = 0xB5;
    m.step(&mut mon, 0);
    assert_eq!(m.registers[3], 0x5A);
    assert_eq!(m.registers[0xF], 1);
}

#[test]
fn shift_left_reports_high_bit() {
    let (mut m, mut mon) = fresh();
    load(&mut m, &[0x830E]);
    m.registers[3] = 0xB5;
    m.step(&mut mon, 0);
    assert_eq!(m.registers[3], 0x6A);
    assert_eq!(m.registers[0xF], 1);
}

#[test]
fn sub_stores_wrapped_difference_with_borrow_flag() {
    let (mut m, mut mon) = fresh();
    load(&mut m, &[0x8015]);
    m.registers[0] = 5;
    m.registers[1] = 10;
    m.step(&mut mon, 0);
    assert_eq!(m.registers[0], 251);
    assert_eq!(m.registers[0xF], 0);
}

#[test]
fn sub_reversed_stores_difference_with_no_borrow() {
    let (mut m, mut mon) = fresh();
    load(&mut m, &[0x8017]);
    m.registers[0] = 5;
    m.registers[1] = 10;
    m.step(&mut mon, 0);
    assert_eq!(m.registers[0], 5);
    assert_eq!(m.registers[0xF], 1);
}

#[test]
fn bitwise_ops_combine_registers() {
    let (mut m, mut mon) = fresh();
    load(&mut m, &[0x8011, 0x8232, 0x8453]);
    m.registers[0] = 0b1100;
    m.registers[1] = 0b1010;
    m.registers[2] = 0b1100;
    m.registers[3] = 0b1010;
    m.registers[4] = 0b1100;
    m.registers[5] = 0b1010;
    m.step(&mut mon, 0);
    m.step(&mut mon, 0);
    m.step(&mut mon, 0);
    assert_eq!(m.registers[0], 0b1110);
    assert_eq!(m.registers[2], 0b1000);
    assert_eq!(m.registers[4], 0b0110);
}

#[test]
fn skips_advance_by_four_when_taken() {
    let (mut m, mut mon) = fresh();
    load(&mut m, &[0x3005]);
    m.registers[0] = 5;
    m.step(&mut mon, 0);
    assert_eq!(m.program_counter, 0x204);

    let (mut m, mut mon) = fresh();
    load(&mut m, &[0x3005]);
    m.registers[0] = 6;
    m.step(&mut mon, 0);
    assert_eq!(m.program_counter, 0x202);

    let (mut m, mut mon) = fresh();
    load(&mut m, &[0x5010]);
    m.registers[0] = 7;
    m.registers[1] = 7;
    m.step(&mut mon, 0);
    assert_eq!(m.program_counter, 0x204);

    let (mut m, mut mon) = fresh();
    load(&mut m, &[0x9010]);
    m.registers[0] = 7;
    m.registers[1] = 8;
    m.step(&mut mon, 0);
    assert_eq!(m.program_counter, 0x204);
}

#[test]
fn call_then_return_restores_program_counter() {
    let (mut m, mut mon) = fresh();
    load(&mut m, &[0x2300]);
    m.memory[0x300] = 0x00;
    m.memory[0x301] = 0xEE;
    let o = m.step(&mut mon, 0);
    assert_eq!(o, Outcome::Ran);
    assert_eq!(m.program_counter, 0x300);
    assert_eq!(m.stack.len(), 1);
    let o = m.step(&mut mon, 0);
    assert_eq!(o, Outcome::Ran);
    assert_eq!(m.program_counter, 0x202);
    assert_eq!(m.stack.len(), 0);
}

#[test]
fn sixteen_calls_succeed_and_the_seventeenth_overflows() {
    let (mut m, mut mon) = fresh();
    let mut program: Vec<u16> = Vec::new();
    for i in 0..17u16 {
        let next = 0x200 + 2 * i + 2;
        program.push(0x2000 | next);
    }
    load(&mut m, &program);
    for _ in 0..16 {
        assert_eq!(m.step(&mut mon, 0), Outcome::Ran);
    }
    assert_eq!(m.stack.len(), 16);
    let o = m.step(&mut mon, 0);
    match o {
        Outcome::Faulted(Fault { kind, pc, word }) => {
            assert_eq!(kind, FaultKind::StackOverflow);
            assert_eq!(pc, 0x200 + 32);
            assert_eq!(word, 0x2000 | (0x200 + 34));
        }
        other => panic!("expected a stack overflow, got {:?}", other),
    }
}

#[test]
fn return_with_empty_stack_underflows() {
    let (mut m, mut mon) = fresh();
    load(&mut m, &[0x00EE]);
    let o = m.step(&mut mon, 0);
    assert_eq!(
        o,
        Outcome::Faulted(Fault {
            kind: FaultKind::StackUnderflow,
            pc: 0x200,
            word: 0x00EE
        })
    );
}

#[test]
fn undefined_encoding_faults_with_context() {
    let (mut m, mut mon) = fresh();
    load(&mut m, &[0x5AB1]);
    let o = m.step(&mut mon, 0);
    assert_eq!(
        o,
        Outcome::Faulted(Fault {
            kind: FaultKind::DecodeError,
            pc: 0x200,
            word: 0x5AB1
        })
    );
}

#[test]
fn fetch_past_memory_end_faults() {
    let (mut m, mut mon) = fresh();
    load(&mut m, &[0x1FFF]);
    assert_eq!(m.step(&mut mon, 0), Outcome::Ran);
    assert_eq!(m.program_counter, 0xFFF);
    let o = m.step(&mut mon, 0);
    assert_eq!(
        o,
        Outcome::Faulted(Fault {
            kind: FaultKind::OutOfBounds,
            pc: 0xFFF,
            word: 0
        })
    );
}

#[test]
fn register_dump_past_memory_end_faults() {
    let (mut m, mut mon) = fresh();
    load(&mut m, &[0xAFFF, 0xF155]);
    assert_eq!(m.step(&mut mon, 0), Outcome::Ran);
    assert_eq!(m.index_register, 0xFFF);
    let o = m.step(&mut mon, 0);
    assert_eq!(
        o,
        Outcome::Faulted(Fault {
            kind: FaultKind::OutOfBounds,
            pc: 0x202,
            word: 0xF155
        })
    );
}

#[test]
fn load_index_and_jump_with_offset() {
    let (mut m, mut mon) = fresh();
    load(&mut m, &[0xA123]);
    m.step(&mut mon, 0);
    assert_eq!(m.index_register, 0x123);

    let (mut m, mut mon) = fresh();
    load(&mut m, &[0xB300]);
    m.registers[0] = 4;
    m.step(&mut mon, 0);
    assert_eq!(m.program_counter, 0x304);
}

#[test]
fn random_with_zero_mask_clears_register() {
    let (mut m, mut mon) = fresh();
    load(&mut m, &[0xC500]);
    m.registers[5] = 0xAA;
    let o = m.step(&mut mon, 0);
    assert_eq!(o, Outcome::Ran);
    assert_eq!(m.registers[5], 0);
}

#[test]
fn random_with_low_mask_stays_in_range() {
    let (mut m, mut mon) = fresh();
    load(&mut m, &[0xC50F]);
    let o = m.step(&mut mon, 0);
    assert_eq!(o, Outcome::Ran);
    assert!(m.registers[5] <= 0x0F);
}

#[test]
fn timer_opcodes_move_values() {
    let (mut m, mut mon) = fresh();
    load(&mut m, &[0x6230, 0xF215, 0xF218, 0xF407]);
    m.step(&mut mon, 0);
    m.step(&mut mon, 0);
    m.step(&mut mon, 0);
    assert_eq!(m.delay_timer, 0x30);
    assert_eq!(m.sound_timer, 0x30);
    m.step(&mut mon, 0);
    assert_eq!(m.registers[4], 0x30);
}

#[test]
fn add_index_wraps_in_sixteen_bits() {
    let (mut m, mut mon) = fresh();
    load(&mut m, &[0xF11E]);
    m.index_register = 0xFFFF;
    m.registers[1] = 2;
    m.step(&mut mon, 0);
    assert_eq!(m.index_register, 1);
}

#[test]
fn sprite_addr_points_at_the_glyph() {
    let (mut m, mut mon) = fresh();
    load(&mut m, &[0x600A, 0xF029]);
    m.step(&mut mon, 0);
    m.step(&mut mon, 0);
    assert_eq!(m.index_register, 50);
    assert_eq!(&m.memory[50..55], &[0xF0, 0x90, 0xF0, 0x90, 0x90]);
}

#[test]
fn sprite_addr_rejects_a_non_digit() {
    let (mut m, mut mon) = fresh();
    load(&mut m, &[0xF029]);
    m.registers[0] = 16;
    let o = m.step(&mut mon, 0);
    assert_eq!(
        o,
        Outcome::Faulted(Fault {
            kind: FaultKind::OutOfBounds,
            pc: 0x200,
            word: 0xF029
        })
    );
}

#[test]
fn bcd_store_writes_three_digits() {
    let (mut m, mut mon) = fresh();
    load(&mut m, &[0xA300, 0xF233]);
    m.registers[2] = 243;
    m.step(&mut mon, 0);
    m.step(&mut mon, 0);
    assert_eq!(m.memory[0x300], 2);
    assert_eq!(m.memory[0x301], 4);
    assert_eq!(m.memory[0x302], 3);
}

#[test]
fn reg_dump_then_load_round_trips() {
    let (mut m, _) = fresh();
    for i in 0..6u8 {
        m.registers[i as usize] = 10 + i;
    }
    m.index_register = 0x400;
    assert!(m.store_reg_0_to_x_in_mem_at_i(5).is_ok());
    let saved = m.registers.clone();
    for i in 0..6u8 {
        m.registers[i as usize] = 0;
    }
    assert!(m.read_memory_into_registers(5).is_ok());
    assert_eq!(m.registers, saved);
    assert_eq!(&m.memory[0x400..0x406], &[10, 11, 12, 13, 14, 15]);
}

#[test]
fn wait_key_suspends_until_a_key_is_down() {
    let (mut m, mut mon) = fresh();
    load(&mut m, &[0xF10A]);
    let o = m.step(&mut mon, 0);
    assert_eq!(o, Outcome::AwaitingKey);
    assert_eq!(m.program_counter, 0x200);
    let o = m.step(&mut mon, 1 << 7);
    assert_eq!(o, Outcome::Ran);
    assert_eq!(m.registers[1], 7);
    assert_eq!(m.program_counter, 0x202);
}

#[test]
fn wait_key_picks_the_lowest_held_key() {
    let (mut m, mut mon) = fresh();
    load(&mut m, &[0xF00A]);
    let o = m.step(&mut mon, (1 << 9) | (1 << 3));
    assert_eq!(o, Outcome::Ran);
    assert_eq!(m.registers[0], 3);
}

#[test]
fn key_skips_follow_the_keypad() {
    let (mut m, mut mon) = fresh();
    load(&mut m, &[0xE09E]);
    m.registers[0] = 3;
    m.step(&mut mon, 1 << 3);
    assert_eq!(m.program_counter, 0x204);

    let (mut m, mut mon) = fresh();
    load(&mut m, &[0xE09E]);
    m.registers[0] = 3;
    m.step(&mut mon, 0);
    assert_eq!(m.program_counter, 0x202);

    let (mut m, mut mon) = fresh();
    load(&mut m, &[0xE0A1]);
    m.registers[0] = 3;
    m.step(&mut mon, 0);
    assert_eq!(m.program_counter, 0x204);

    let (mut m, mut mon) = fresh();
    load(&mut m, &[0xE0A1]);
    m.registers[0] = 16;
    let o = m.step(&mut mon, 0);
    assert_eq!(
        o,
        Outcome::Faulted(Fault {
            kind: FaultKind::OutOfBounds,
            pc: 0x200,
            word: 0xE0A1
        })
    );
}

#[test]
fn halt_stops_the_cycle_loop() {
    let (mut m, mut mon) = fresh();
    load(&mut m, &[0x602A, 0x0000]);
    let o = m.cycle(&mut mon, 0, 100);
    assert_eq!(o, Outcome::Halted);
    assert_eq!(m.registers[0], 42);
}

#[test]
fn cycle_with_budget_one_executes_exactly_one_step() {
    let (mut m, mut mon) = fresh();
    load(&mut m, &[0x8014]);
    m.registers[0] = 5;
    m.registers[1] = 10;
    let o = m.cycle(&mut mon, 0, 1);
    assert_eq!(o, Outcome::Ran);
    assert_eq!(m.registers[0], 15);
    assert_eq!(m.registers[0xF], 0);
    assert_eq!(m.program_counter, 0x202);
}

#[test]
fn cycle_budget_runs_out_on_a_tight_loop() {
    let (mut m, mut mon) = fresh();
    load(&mut m, &[0x1200]);
    let o = m.cycle(&mut mon, 0, 10);
    assert_eq!(o, Outcome::Ran);
    assert_eq!(m.program_counter, 0x200);
}

#[test]
fn cycle_surfaces_a_fault() {
    let (mut m, mut mon) = fresh();
    load(&mut m, &[0x6005, 0x00EE]);
    let o = m.cycle(&mut mon, 0, 100);
    assert_eq!(
        o,
        Outcome::Faulted(Fault {
            kind: FaultKind::StackUnderflow,
            pc: 0x202,
            word: 0x00EE
        })
    );
}

#[test]
fn get_opcode_reads_big_endian() {
    let (mut m, _) = fresh();
    load(&mut m, &[0xABCD]);
    assert_eq!(m.get_opcode(), Some(0xABCD));
    m.program_counter = 0xFFF;
    assert_eq!(m.get_opcode(), None);
}

#[test]
fn move_and_load_write_registers() {
    let (mut m, mut mon) = fresh();
    load(&mut m, &[0x6A77, 0x8BA0]);
    m.step(&mut mon, 0);
    assert_eq!(m.registers[0xA], 0x77);
    m.step(&mut mon, 0);
    assert_eq!(m.registers[0xB], 0x77);
}
