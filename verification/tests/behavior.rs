use chip8::cpu::{Cpu, ExecError, LoadError, StepError, FONT_START_ADDRESS, HEIGHT, START_ADDRESS, WIDTH};
use chip8::input::Input;
use chip8::instruction::{DecodeError, Instruction};

#[test]
fn decode_documented_examples() {
    assert_eq!(Instruction::parse(0x1ABC), Ok(Instruction::JP_ADDR(0xABC)));
    assert_eq!(Instruction::parse(0x3140), Ok(Instruction::SE_BYTE(1, 0x40)));
    assert_eq!(Instruction::parse(0x4140), Ok(Instruction::SNE_BYTE(1, 0x40)));
    assert_eq!(Instruction::parse(0x6112), Ok(Instruction::LD_BYTE(1, 0x12)));
    assert_eq!(Instruction::parse(0x7101), Ok(Instruction::ADD_BYTE(1, 0x01)));
}

#[test]
fn decode_arithmetic_family() {
    assert_eq!(Instruction::parse(0x8120), Ok(Instruction::LD(1, 2)));
    assert_eq!(Instruction::parse(0x8122), Ok(Instruction::AND(1, 2)));
    assert_eq!(Instruction::parse(0x8123), Ok(Instruction::XOR(1, 2)));
    assert_eq!(Instruction::parse(0x8124), Ok(Instruction::ADD(1, 2)));
    assert_eq!(Instruction::parse(0x8125), Ok(Instruction::SUB(1, 2)));
    assert_eq!(Instruction::parse(0x8126), Ok(Instruction::SHR(1)));
    assert_eq!(Instruction::parse(0x8127), Ok(Instruction::SUBN(1, 2)));
    assert_eq!(Instruction::parse(0x812E), Ok(Instruction::SHL(1)));
}

#[test]
fn decode_remaining_families() {
    assert_eq!(Instruction::parse(0x9120), Ok(Instruction::SNE(1, 2)));
    assert_eq!(Instruction::parse(0xA123), Ok(Instruction::LD_I(0x123)));
    assert_eq!(Instruction::parse(0xB123), Ok(Instruction::JP_V0(0x123)));
    assert_eq!(Instruction::parse(0xC1FF), Ok(Instruction::RND_BYTE(1, 0xFF)));
    assert_eq!(Instruction::parse(0xD125), Ok(Instruction::DRW(1, 2, 5)));
    assert_eq!(Instruction::parse(0xE19E), Ok(Instruction::SKP(1)));
    assert_eq!(Instruction::parse(0xE1A1), Ok(Instruction::SKNP(1)));
    assert_eq!(Instruction::parse(0xF107), Ok(Instruction::LD_DT(1)));
    assert_eq!(Instruction::parse(0xF10A), Ok(Instruction::LD_KEY(1)));
    assert_eq!(Instruction::parse(0xF115), Ok(Instruction::LD_DT_SET(1)));
    assert_eq!(Instruction::parse(0xF118), Ok(Instruction::LD_ST_SET(1)));
    assert_eq!(Instruction::parse(0xF11E), Ok(Instruction::ADD_I(1)));
    assert_eq!(Instruction::parse(0xF129), Ok(Instruction::LD_F(1)));
    assert_eq!(Instruction::parse(0xF133), Ok(Instruction::LD_B(1)));
    assert_eq!(Instruction::parse(0xF155), Ok(Instruction::LD_STORE_I(1)));
    assert_eq!(Instruction::parse(0xF165), Ok(Instruction::LD_READ_I(1)));
}

#[test]
fn decode_rejects_unknown_patterns() {
    assert_eq!(
        Instruction::parse(0x5FF5),
        Err(DecodeError { opcode: 0x5FF5 })
    );
    assert_eq!(
        Instruction::parse(0x9ABD),
        Err(DecodeError { opcode: 0x9ABD })
    );
    assert_eq!(
        Instruction::parse(0x8128),
        Err(DecodeError { opcode: 0x8128 })
    );
    assert_eq!(
        Instruction::parse(0x812F),
        Err(DecodeError { opcode: 0x812F })
    );
    assert_eq!(
        Instruction::parse(0xE100),
        Err(DecodeError { opcode: 0xE100 })
    );
    assert_eq!(
        Instruction::parse(0xF100),
        Err(DecodeError { opcode: 0xF100 })
    );
}

#[test]
fn clear_screen_sets_redraw_flag() {
    let mut cpu = Cpu::init();
    cpu.should_draw = false;
    cpu.pixels[77] = true;
    cpu.execute(Instruction::CLS).unwrap();

    assert!(cpu.should_draw);
    assert!(cpu.pixels.iter().all(|p| !p));
}

#[test]
fn draw_glyph_twice_restores_blank_screen() {
    let mut cpu = Cpu::init();
    cpu.i = FONT_START_ADDRESS;
    cpu.v[0] = 0;
    cpu.v[1] = 0;

    cpu.execute(Instruction::DRW(0, 1, 5)).unwrap();
    assert_eq!(cpu.v[0xF], 0);
    assert!(cpu.pixels.iter().any(|p| *p));

    cpu.execute(Instruction::DRW(0, 1, 5)).unwrap();
    assert_eq!(cpu.v[0xF], 1);
    assert!(cpu.pixels.iter().all(|p| !p));
}

#[test]
fn draw_wraps_origin_and_edges() {
    let mut cpu = Cpu::init();
    cpu.i = FONT_START_ADDRESS;
    // The glyph row 0xF0 has its four set bits in columns 0 to 3.
    cpu.v[0] = 62 + 64;
    cpu.v[1] = 1 + 32;
    cpu.execute(Instruction::DRW(0, 1, 1)).unwrap();

    assert!(cpu.pixels[WIDTH + 62]);
    assert!(cpu.pixels[WIDTH + 63]);
    assert!(cpu.pixels[WIDTH + 0]);
    assert!(cpu.pixels[WIDTH + 1]);
    assert!(!cpu.pixels[WIDTH + 2]);
}

#[test]
fn draw_all_zero_sprite_leaves_redraw_flag_alone() {
    let mut cpu = Cpu::init();
    cpu.should_draw = false;
    cpu.i = 0;
    cpu.execute(Instruction::DRW(0, 1, 2)).unwrap();

    assert!(!cpu.should_draw);
    assert_eq!(cpu.v[0xF], 0);
}

#[test]
fn random_respects_mask() {
    let mut cpu = Cpu::init();
    cpu.v[0] = 0xFF;
    cpu.execute(Instruction::RND_BYTE(0, 0x0F)).unwrap();

    assert_eq!(cpu.v[0] & 0xF0, 0);
}

#[test]
fn stack_underflow_is_reported() {
    let mut cpu = Cpu::init();
    let before_pc = cpu.pc;
    assert_eq!(
        cpu.execute(Instruction::RET),
        Err(ExecError::StackUnderflow)
    );
    assert_eq!(cpu.pc, before_pc);
    assert_eq!(cpu.sp, 0);
}

#[test]
fn stack_overflow_is_reported() {
    let mut cpu = Cpu::init();
    for _ in 0..16 {
        cpu.execute(Instruction::CALL_ADDR(0x300)).unwrap();
    }
    assert_eq!(cpu.sp, 16);
    assert_eq!(
        cpu.execute(Instruction::CALL_ADDR(0x300)),
        Err(ExecError::StackOverflow)
    );
    assert_eq!(cpu.sp, 16);
}

#[test]
fn bcd_near_end_of_memory_is_reported() {
    let mut cpu = Cpu::init();
    cpu.i = 4094;
    cpu.v[0] = 255;
    assert_eq!(
        cpu.execute(Instruction::LD_B(0)),
        Err(ExecError::MemoryOutOfRange)
    );
    assert_eq!(cpu.mem[4094], 0);
    assert_eq!(cpu.mem[4095], 0);
}

#[test]
fn sprite_read_past_memory_is_reported() {
    let mut cpu = Cpu::init();
    cpu.i = 4090;
    assert_eq!(
        cpu.execute(Instruction::DRW(0, 1, 15)),
        Err(ExecError::MemoryOutOfRange)
    );
    assert!(cpu.pixels.iter().all(|p| !p));
}

#[test]
fn register_transfer_past_memory_is_reported() {
    let mut cpu = Cpu::init();
    cpu.i = 4082;
    assert_eq!(
        cpu.execute(Instruction::LD_STORE_I(15)),
        Err(ExecError::MemoryOutOfRange)
    );
    assert_eq!(
        cpu.execute(Instruction::LD_READ_I(15)),
        Err(ExecError::MemoryOutOfRange)
    );
    cpu.i = 4080;
    cpu.execute(Instruction::LD_STORE_I(15)).unwrap();
    cpu.execute(Instruction::LD_READ_I(15)).unwrap();
}

#[test]
fn key_index_out_of_range_is_reported() {
    let mut cpu = Cpu::init();
    cpu.v[0] = 16;
    assert_eq!(
        cpu.execute(Instruction::SKP(0)),
        Err(ExecError::KeyOutOfRange)
    );
    assert_eq!(
        cpu.execute(Instruction::SKNP(0)),
        Err(ExecError::KeyOutOfRange)
    );
    assert_eq!(cpu.pc, START_ADDRESS);
}

#[test]
fn wait_for_key_prefers_lowest_index() {
    let mut cpu = Cpu::init();
    cpu.keys[3] = true;
    cpu.keys[9] = true;
    cpu.execute(Instruction::LD_KEY(2)).unwrap();

    assert_eq!(cpu.v[2], 3);
    assert_eq!(cpu.pc, START_ADDRESS);
}

#[test]
fn add_to_index_wraps_at_16_bits() {
    let mut cpu = Cpu::init();
    cpu.i = 0xFFFF;
    cpu.v[1] = 2;
    cpu.execute(Instruction::ADD_I(1)).unwrap();

    assert_eq!(cpu.i, 1);
}

#[test]
fn cycle_fetches_decodes_and_advances() {
    let mut cpu = Cpu::init();
    cpu.load_rom(&[0x61, 0x12]).unwrap();
    cpu.cycle().unwrap();

    assert_eq!(cpu.v[1], 0x12);
    assert_eq!(cpu.pc, START_ADDRESS + 2);
}

#[test]
fn cycle_reports_fetch_past_memory() {
    let mut cpu = Cpu::init();
    cpu.pc = 4095;
    assert_eq!(
        cpu.cycle(),
        Err(StepError::FetchOutOfRange { addr: 4095 })
    );
    assert_eq!(cpu.pc, 4095);
}

#[test]
fn cycle_reports_undecodable_opcode_with_its_address() {
    let mut cpu = Cpu::init();
    cpu.load_rom(&[0x5F, 0xF5]).unwrap();
    assert_eq!(
        cpu.cycle(),
        Err(StepError::Decode { opcode: 0x5FF5, addr: START_ADDRESS })
    );
    assert_eq!(cpu.pc, START_ADDRESS + 2);
}

#[test]
fn cycle_reports_execution_fault() {
    let mut cpu = Cpu::init();
    cpu.load_rom(&[0x00, 0xEE]).unwrap();
    assert_eq!(
        cpu.cycle(),
        Err(StepError::Exec(ExecError::StackUnderflow))
    );
}

#[test]
fn delay_timer_reaches_zero_and_stays_there() {
    let mut cpu = Cpu::init();
    // Two harmless clear-screen instructions.
    cpu.load_rom(&[0x00, 0xE0, 0x00, 0xE0]).unwrap();
    cpu.dt = 1;
    cpu.cycle().unwrap();
    assert_eq!(cpu.dt, 0);
    cpu.cycle().unwrap();
    assert_eq!(cpu.dt, 0);
}

#[test]
fn sound_timer_decrements_once_per_cycle() {
    let mut cpu = Cpu::init();
    cpu.load_rom(&[0x00, 0xE0]).unwrap();
    cpu.st = 5;
    cpu.cycle().unwrap();
    assert_eq!(cpu.st, 4);
}

#[test]
fn timers_set_from_registers() {
    let mut cpu = Cpu::init();
    // Set v1, move it to the delay timer, then read it back into v2; the
    // delay timer has already ticked once by the read.
    cpu.load_rom(&[0x61, 0x30, 0xF1, 0x15, 0xF2, 0x07]).unwrap();
    cpu.cycle().unwrap();
    cpu.cycle().unwrap();
    cpu.cycle().unwrap();
    assert_eq!(cpu.v[2], 0x2F);
}

#[test]
fn load_rom_writes_bytes_at_start_address() {
    let mut cpu = Cpu::init();
    cpu.load_rom(&[1, 2, 3]).unwrap();

    assert_eq!(cpu.mem[START_ADDRESS as usize], 1);
    assert_eq!(cpu.mem[START_ADDRESS as usize + 1], 2);
    assert_eq!(cpu.mem[START_ADDRESS as usize + 2], 3);
    assert_eq!(cpu.mem[START_ADDRESS as usize + 3], 0);
}

#[test]
fn load_rom_accepts_the_largest_fitting_image() {
    let mut cpu = Cpu::init();
    cpu.load_rom(&vec![0xAB; 3584]).unwrap();
    assert_eq!(cpu.mem[4095], 0xAB);
}

#[test]
fn load_rom_rejects_an_oversized_image() {
    let mut cpu = Cpu::init();
    let rom = vec![0xAB; 3585];
    assert_eq!(cpu.load_rom(&rom), Err(LoadError { rom_len: 3585 }));
    assert_eq!(cpu.mem[START_ADDRESS as usize], 0);
    assert_eq!(cpu.mem[4095], 0);
}

#[test]
fn init_loads_the_font_and_start_state() {
    let cpu = Cpu::init();
    assert_eq!(cpu.pc, START_ADDRESS);
    assert_eq!(cpu.sp, 0);
    assert!(cpu.should_draw);
    assert_eq!(cpu.mem[FONT_START_ADDRESS as usize], 0xF0);
    assert_eq!(cpu.mem[FONT_START_ADDRESS as usize + 79], 0x80);
    assert_eq!(cpu.mem[FONT_START_ADDRESS as usize + 80], 0);
    assert_eq!(cpu.pixels.len(), WIDTH * HEIGHT);
    assert!(cpu.pixels.iter().all(|p| !p));
}

#[test]
fn input_sets_and_clears_the_mapped_key() {
    let input = Input::init();
    let mut keys = vec![false; 16];

    input.process(&mut keys, 'x', true);
    assert!(keys[0]);
    input.process(&mut keys, 'x', false);
    assert!(!keys[0]);

    input.process(&mut keys, '1', true);
    input.process(&mut keys, 'v', true);
    assert!(keys[1]);
    assert!(keys[0xF]);
}

#[test]
fn input_ignores_unmapped_keys() {
    let input = Input::init();
    let mut keys = vec![false; 16];
    input.process(&mut keys, '9', true);
    input.process(&mut keys, 'p', true);
    assert_eq!(keys, vec![false; 16]);
}

#[test]
fn input_covers_the_whole_keypad() {
    let input = Input::init();
    let mut keys = vec![false; 16];
    let layout = [
        'x', '1', '2', '3', 'q', 'w', 'e', 'a', 's', 'd', 'z', 'c', '4', 'r', 'f', 'v',
    ];
    for (idx, key) in layout.iter().enumerate() {
        input.process(&mut keys, *key, true);
        assert!(keys[idx]);
    }
    assert_eq!(keys, vec![true; 16]);
}
