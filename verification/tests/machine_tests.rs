use sunyat::constants::{
    EXT_ERR_FILE_NOT_OPEN, EXT_ERR_FILE_READ, EXT_ERR_ROM_BIG, SIZE_APP_ROM, OPCODE_ADD_RI, OPCODE_ADD_RR, OPCODE_AND_RI,
    OPCODE_AND_RR, OPCODE_AUX_I, OPCODE_AWR_I, OPCODE_CALL_M, OPCODE_CMP_RI, OPCODE_CMP_RR,
    OPCODE_DIV_RI, OPCODE_DIV_RR, OPCODE_JEQ_M, OPCODE_JGR_M, OPCODE_JLS_M, OPCODE_JMP_M,
    OPCODE_JNE_M, OPCODE_LOADP_RR, OPCODE_LOAD_RM, OPCODE_MOV_RI, OPCODE_MOV_RR, OPCODE_MUL_RI,
    OPCODE_MUL_RR, OPCODE_OR_RI, OPCODE_OR_RR, OPCODE_RET, OPCODE_STACKER_R, OPCODE_STORP_RR,
    OPCODE_STOR_MR, OPCODE_SUB_RR, OPCODE_SWR_I, OPCODE_XOR_RI, OPCODE_XOR_RR, REG_IRH, REG_IRL,
    REG_PC, REG_SP, REG_WIN,
};
use sunyat::{
    load_rom, load_state, start_sunyat, HaltReason, KeyInput, KeyReport, RomFile, StepOutcome,
    SunyAT,
};

fn ins(op: u8, d: u8, low: u8) -> Vec<u8> {
    vec![(op << 3) | d, low]
}

fn program(parts: &[Vec<u8>]) -> SunyAT {
    let mut image = vec![b'm'; 70];
    for p in parts {
        image.extend_from_slice(p);
    }
    match start_sunyat(RomFile::Loaded(image), false, false) {
        Ok(m) => m,
        Err(code) => panic!("start failed with {}", code),
    }
}

fn run(m: &mut SunyAT, n: usize) -> StepOutcome {
    let mut last = StepOutcome::Continue;
    for _ in 0..n {
        assert!(!m.next_step_traps());
        last = m.step();
    }
    last
}

#[test]
fn new_machine_state() {
    let m = SunyAT::default();
    assert_eq!(m.register(REG_PC), 0);
    assert_eq!(m.register(REG_WIN), 5);
    assert_eq!(m.register(REG_SP), 255);
    for a in 0..255 {
        assert_eq!(m.ram_byte(a), 0);
    }
    assert!(!m.zero_flag() && !m.sign_flag() && !m.linefeed_buffered() && !m.debug());
    assert_eq!(m.clock_ticks(), 0);
}

#[test]
fn rom_skips_the_message() {
    let mut m = SunyAT::default();
    let mut image = vec![7u8; 70];
    image.extend_from_slice(&[1, 2, 3]);
    assert_eq!(load_rom(&mut m, &image), 0);
    assert_eq!((m.ram_byte(0), m.ram_byte(1), m.ram_byte(2), m.ram_byte(3)), (1, 2, 3, 0));
    assert_eq!(m.register(REG_SP), 255);
}

#[test]
fn rom_shorter_than_the_message_leaves_ram_zero() {
    let mut m = SunyAT::default();
    assert_eq!(load_rom(&mut m, &[9u8; 40]), 0);
    for a in 0..255 {
        assert_eq!(m.ram_byte(a), 0);
    }
}

#[test]
fn rom_of_full_size_fills_ram() {
    let mut m = SunyAT::default();
    let mut image = vec![0u8; 70];
    image.extend((0..255).map(|i| (i % 251) as u8));
    assert_eq!(image.len(), SIZE_APP_ROM);
    assert_eq!(load_rom(&mut m, &image), 0);
    assert_eq!(m.ram_byte(254), 254 % 251);
    assert_eq!(m.ram_byte(3), 3);
}

#[test]
fn rom_too_large_is_refused() {
    let mut m = SunyAT::default();
    let mut image = vec![0u8; 70];
    image.extend((0..256).map(|i| (i % 251) as u8 + 1));
    assert_eq!(load_rom(&mut m, &image), EXT_ERR_ROM_BIG);
    for a in 0..255 {
        assert_eq!(m.ram_byte(a), 0);
    }
    assert!(matches!(start_sunyat(RomFile::Loaded(image), false, false), Err(c) if c == EXT_ERR_ROM_BIG));
}

#[test]
fn start_failures_give_exit_codes() {
    assert!(matches!(start_sunyat(RomFile::Loaded(vec![0; 80]), true, false), Err(255)));
    assert!(matches!(start_sunyat(RomFile::OpenFailed, false, false), Err(c) if c == EXT_ERR_FILE_NOT_OPEN));
    assert!(matches!(start_sunyat(RomFile::ReadFailed, false, true), Err(c) if c == EXT_ERR_FILE_READ));
}

#[test]
fn load_state_is_unsupported() {
    let mut m = SunyAT::default();
    assert_eq!(load_state(&mut m, "state.bin"), 255);
    assert_eq!(m.register(REG_SP), 255);
}

#[test]
fn move_and_add_immediate() {
    let mut m = program(&[ins(OPCODE_MOV_RI, 0, 42), ins(OPCODE_ADD_RI, 0, 1), ins(OPCODE_MOV_RR, 1, 0)]);
    assert_eq!(run(&mut m, 3), StepOutcome::Continue);
    assert_eq!(m.register(5), 43);
    assert_eq!(m.register(6), 43);
    assert_eq!(m.register(REG_PC), 6);
    assert_eq!(m.register(REG_IRH), OPCODE_MOV_RR << 3 | 1);
    assert_eq!(m.register(REG_IRL), 0);
    assert_eq!(m.clock_ticks(), 3);
    assert!(!m.zero_flag() && !m.sign_flag());
}

#[test]
fn addition_wraps_around() {
    let mut m = program(&[ins(OPCODE_MOV_RI, 0, 200), ins(OPCODE_MOV_RI, 1, 100), ins(OPCODE_ADD_RR, 0, 1)]);
    run(&mut m, 3);
    assert_eq!(m.register(5), 44);
}

#[test]
fn subtraction_sets_sign_and_zero() {
    let mut m = program(&[
        ins(OPCODE_MOV_RI, 0, 1),
        ins(OPCODE_MOV_RI, 1, 2),
        ins(OPCODE_SUB_RR, 0, 1),
    ]);
    run(&mut m, 3);
    assert_eq!(m.register(5), 255);
    assert!(m.sign_flag() && !m.zero_flag());
    let mut z = program(&[ins(OPCODE_MOV_RI, 0, 9), ins(OPCODE_MOV_RI, 1, 9), ins(OPCODE_SUB_RR, 0, 1)]);
    run(&mut z, 3);
    assert_eq!(z.register(5), 0);
    assert!(z.zero_flag() && !z.sign_flag());
}

#[test]
fn multiplication_wraps_around() {
    let mut m = program(&[
        ins(OPCODE_MOV_RI, 0, 20),
        ins(OPCODE_MOV_RI, 1, 13),
        ins(OPCODE_MUL_RR, 0, 1),
        ins(OPCODE_MOV_RI, 2, 7),
        ins(OPCODE_MUL_RI, 2, 0xFF),
    ]);
    run(&mut m, 5);
    assert_eq!(m.register(5), 4);
    assert_eq!(m.register(7), 249);
    assert!(m.sign_flag());
}

#[test]
fn division_is_signed_and_rounds_toward_zero() {
    let mut m = program(&[
        ins(OPCODE_MOV_RI, 0, 0xF6),
        ins(OPCODE_MOV_RI, 1, 3),
        ins(OPCODE_DIV_RR, 0, 1),
        ins(OPCODE_MOV_RI, 2, 100),
        ins(OPCODE_DIV_RI, 2, 0xFE),
    ]);
    run(&mut m, 5);
    assert_eq!(m.register(5), 0xFD);
    assert_eq!(m.register(7), 206);
    assert!(m.sign_flag());
}

#[test]
fn division_by_zero_halts() {
    let mut m = program(&[ins(OPCODE_MOV_RI, 0, 5), ins(OPCODE_DIV_RR, 0, 1)]);
    assert_eq!(run(&mut m, 2), StepOutcome::Halt(HaltReason::DivideByZero));
    let mut n = program(&[ins(OPCODE_MOV_RI, 0, 5), ins(OPCODE_DIV_RI, 0, 0)]);
    assert_eq!(run(&mut n, 2), StepOutcome::Halt(HaltReason::DivideByZero));
}

#[test]
fn dividing_minus_128_by_minus_1_traps() {
    let mut m = program(&[ins(OPCODE_MOV_RI, 0, 0x80), ins(OPCODE_MOV_RI, 1, 0xFF), ins(OPCODE_DIV_RR, 0, 1)]);
    run(&mut m, 2);
    assert!(m.next_step_traps());
    let mut n = program(&[ins(OPCODE_MOV_RI, 0, 0x80), ins(OPCODE_DIV_RI, 0, 0xFF)]);
    run(&mut n, 1);
    assert!(n.next_step_traps());
}

#[test]
fn compare_and_branch() {
    let mut m = program(&[
        ins(OPCODE_MOV_RI, 0, 5),
        ins(OPCODE_CMP_RI, 0, 5),
        ins(OPCODE_JNE_M, 0, 40),
        ins(OPCODE_JEQ_M, 0, 20),
    ]);
    run(&mut m, 4);
    assert!(m.zero_flag());
    assert_eq!(m.register(5), 5);
    assert_eq!(m.register(REG_PC), 20);
}

#[test]
fn greater_and_less_branches() {
    let mut m = program(&[
        ins(OPCODE_MOV_RI, 0, 5),
        ins(OPCODE_MOV_RI, 1, 3),
        ins(OPCODE_CMP_RR, 0, 1),
        ins(OPCODE_JLS_M, 0, 50),
        ins(OPCODE_JGR_M, 0, 30),
    ]);
    run(&mut m, 5);
    assert_eq!(m.register(REG_PC), 30);
    let mut n = program(&[ins(OPCODE_MOV_RI, 0, 3), ins(OPCODE_CMP_RI, 0, 5), ins(OPCODE_JGR_M, 0, 50), ins(OPCODE_JLS_M, 0, 30)]);
    run(&mut n, 4);
    assert!(n.sign_flag());
    assert_eq!(n.register(REG_PC), 30);
}

#[test]
fn jumps() {
    let mut m = program(&[ins(OPCODE_JMP_M, 0, 10)]);
    run(&mut m, 1);
    assert_eq!(m.register(REG_PC), 10);
    let mut n = program(&[ins(OPCODE_JMP_M, 0, 255)]);
    assert_eq!(run(&mut n, 1), StepOutcome::Halt(HaltReason::JumpOutOfRange));
    let mut p = program(&[ins(OPCODE_JMP_M, 0, 254)]);
    run(&mut p, 1);
    assert_eq!(p.step(), StepOutcome::Halt(HaltReason::InvalidPc));
    assert_eq!(p.clock_ticks(), 2);
}

#[test]
fn call_then_return() {
    let mut image = vec![0u8; 12];
    image[0..2].copy_from_slice(&ins(OPCODE_CALL_M, 0, 10));
    image[10..12].copy_from_slice(&ins(OPCODE_RET, 0, 0));
    let mut m = program(&[image]);
    run(&mut m, 1);
    assert_eq!(m.register(REG_PC), 10);
    assert_eq!(m.register(REG_SP), 254);
    assert_eq!(m.ram_byte(254), 2);
    run(&mut m, 1);
    assert_eq!(m.register(REG_PC), 2);
    assert_eq!(m.register(REG_SP), 255);
}

#[test]
fn return_with_empty_stack_ends_the_program() {
    let mut m = program(&[ins(OPCODE_RET, 0, 0)]);
    assert_eq!(m.step(), StepOutcome::Halt(HaltReason::StackEmpty));
}

#[test]
fn call_to_the_terminal_halts() {
    let mut m = program(&[ins(OPCODE_CALL_M, 0, 255)]);
    assert_eq!(m.step(), StepOutcome::Halt(HaltReason::CallOutOfRange));
}

#[test]
fn calls_overflow_the_stack() {
    let mut image = vec![0u8; 128];
    image[126..128].copy_from_slice(&ins(OPCODE_CALL_M, 0, 126));
    let mut m = program(&[image]);
    let mut outcome = StepOutcome::Continue;
    let mut steps = 0;
    while outcome == StepOutcome::Continue && steps < 1000 {
        outcome = m.step();
        steps += 1;
    }
    assert_eq!(outcome, StepOutcome::Halt(HaltReason::CallStackOverflow));
    assert_eq!(m.register(REG_SP), 0);
}

#[test]
fn push_then_pop() {
    let mut m = program(&[
        ins(OPCODE_MOV_RI, 0, 77),
        ins(OPCODE_STACKER_R, 0, 0),
        ins(OPCODE_STACKER_R, 3, 1),
    ]);
    run(&mut m, 2);
    assert_eq!(m.register(REG_SP), 254);
    assert_eq!(m.ram_byte(254), 77);
    run(&mut m, 1);
    assert_eq!(m.register(8), 77);
    assert_eq!(m.register(REG_SP), 255);
}

#[test]
fn pop_from_empty_stack_halts() {
    let mut m = program(&[ins(OPCODE_STACKER_R, 0, 1)]);
    assert_eq!(m.step(), StepOutcome::Halt(HaltReason::PopStackUnderflow));
}

#[test]
fn pushes_overflow_the_stack() {
    let mut m = program(&[
        ins(OPCODE_MOV_RI, 1, 224),
        ins(OPCODE_STACKER_R, 0, 0),
        ins(OPCODE_STACKER_R, 0, 0),
        ins(OPCODE_STACKER_R, 1, 0),
        ins(OPCODE_JMP_M, 0, 4),
    ]);
    let mut outcome = StepOutcome::Continue;
    let mut steps = 0;
    while outcome == StepOutcome::Continue && steps < 1000 {
        outcome = m.step();
        steps += 1;
    }
    assert_eq!(outcome, StepOutcome::Halt(HaltReason::PushStackOverflow));
    assert_eq!(m.register(REG_SP), 0);
}

#[test]
fn logic_operations() {
    let mut m = program(&[
        ins(OPCODE_MOV_RI, 0, 0b1100),
        ins(OPCODE_MOV_RI, 1, 0b1010),
        ins(OPCODE_MOV_RR, 2, 0),
        ins(OPCODE_MOV_RR, 3, 0),
        ins(OPCODE_AND_RR, 0, 1),
        ins(OPCODE_OR_RR, 2, 1),
        ins(OPCODE_XOR_RR, 3, 1),
        ins(OPCODE_AND_RI, 1, 0b0010),
        ins(OPCODE_OR_RI, 1, 0x80),
        ins(OPCODE_XOR_RI, 1, 0x82),
    ]);
    run(&mut m, 7);
    assert_eq!(m.register(5), 0b1000);
    assert_eq!(m.register(7), 0b1110);
    assert_eq!(m.register(8), 0b0110);
    run(&mut m, 1);
    assert_eq!(m.register(6), 0b0010);
    run(&mut m, 1);
    assert_eq!(m.register(6), 0x82);
    assert!(m.sign_flag());
    run(&mut m, 1);
    assert_eq!(m.register(6), 0);
    assert!(m.zero_flag());
}

#[test]
fn memory_load_and_store() {
    let mut m = program(&[
        ins(OPCODE_MOV_RI, 0, 99),
        ins(OPCODE_STOR_MR, 0, 200),
        ins(OPCODE_LOAD_RM, 1, 200),
        ins(OPCODE_MOV_RI, 2, 201),
        ins(OPCODE_STORP_RR, 2, 0),
        ins(OPCODE_LOADP_RR, 3, 2),
    ]);
    run(&mut m, 6);
    assert_eq!(m.ram_byte(200), 99);
    assert_eq!(m.register(6), 99);
    assert_eq!(m.ram_byte(201), 99);
    assert_eq!(m.register(8), 99);
}

#[test]
fn stores_to_the_terminal_print() {
    let mut m = program(&[
        ins(OPCODE_MOV_RI, 0, b'H'),
        ins(OPCODE_STOR_MR, 0, 255),
        ins(OPCODE_MOV_RI, 1, 255),
        ins(OPCODE_STORP_RR, 1, 0),
    ]);
    assert_eq!(run(&mut m, 2), StepOutcome::Write(b'H'));
    assert_eq!(run(&mut m, 2), StepOutcome::Write(b'H'));
}

#[test]
fn terminal_reads_ask_for_keys_and_buffer_line_feeds() {
    let mut m = program(&[
        ins(OPCODE_LOAD_RM, 0, 255),
        ins(OPCODE_MOV_RI, 1, 255),
        ins(OPCODE_LOADP_RR, 2, 1),
        ins(OPCODE_LOAD_RM, 3, 255),
    ]);
    assert_eq!(m.step(), StepOutcome::ReadKey(5));
    assert_eq!(m.deliver_key(5, KeyInput::Enter), KeyReport::Quiet);
    assert_eq!(m.register(5), 0x0D);
    assert!(m.linefeed_buffered());
    run(&mut m, 1);
    assert_eq!(m.step(), StepOutcome::Continue);
    assert_eq!(m.register(7), 0x0A);
    assert!(!m.linefeed_buffered());
    assert_eq!(m.step(), StepOutcome::ReadKey(8));
}

#[test]
fn unknown_and_other_keys() {
    let mut m = SunyAT::default();
    assert_eq!(m.deliver_key(9, KeyInput::Unknown(300)), KeyReport::NcursesKey(300));
    assert_eq!(m.register(9), 0);
    assert_eq!(m.deliver_key(9, KeyInput::Unknown(-3)), KeyReport::UnknownKey(-3));
    assert_eq!(m.register(9), 253);
    assert_eq!(m.deliver_key(9, KeyInput::Other), KeyReport::Quiet);
    assert_eq!(m.register(9), 253);
    assert!(!m.linefeed_buffered());
}

#[test]
fn character_keys_give_their_code_and_no_key_gives_zero() {
    let mut m = SunyAT::default();
    assert_eq!(m.deliver_key(12, KeyInput::Character('A' as u32)), KeyReport::Quiet);
    assert_eq!(m.register(12), 65);
    m.deliver_key(12, KeyInput::Character(0x141));
    assert_eq!(m.register(12), 0x41);
    assert_eq!(m.deliver_key(12, KeyInput::NoKey), KeyReport::Quiet);
    assert_eq!(m.register(12), 0);
}

#[test]
fn register_window_instructions() {
    let mut m = program(&[
        ins(OPCODE_SWR_I, 0, 10),
        ins(OPCODE_MOV_RI, 0, 1),
        ins(OPCODE_AWR_I, 0, 0xFE),
        ins(OPCODE_MOV_RI, 0, 2),
        ins(OPCODE_AWR_I, 0, 30),
        ins(OPCODE_MOV_RI, 0, 3),
        ins(OPCODE_AUX_I, 0, 0),
    ]);
    run(&mut m, 2);
    assert_eq!(m.register(REG_WIN), 10);
    assert_eq!(m.register(10), 1);
    run(&mut m, 2);
    assert_eq!(m.register(REG_WIN), 8);
    assert_eq!(m.register(8), 2);
    run(&mut m, 2);
    assert_eq!(m.register(REG_WIN), 6);
    assert_eq!(m.register(6), 3);
    run(&mut m, 1);
    assert_eq!(m.register(REG_PC), 14);
}

#[test]
fn window_wraps_across_the_last_register() {
    let mut m = program(&[ins(OPCODE_SWR_I, 0, 35), ins(OPCODE_MOV_RI, 3, 44)]);
    run(&mut m, 2);
    assert_eq!(m.register(6), 44);
}

#[test]
fn flags_untouched_by_moves_and_jumps() {
    let mut m = program(&[
        ins(OPCODE_MOV_RI, 0, 0),
        ins(OPCODE_CMP_RI, 0, 0),
        ins(OPCODE_MOV_RI, 1, 0x90),
        ins(OPCODE_JMP_M, 0, 8),
    ]);
    run(&mut m, 4);
    assert!(m.zero_flag() && !m.sign_flag());
}
