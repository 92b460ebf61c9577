use sunyat::{get_dreg, get_grimm, get_grwp, get_imm, get_mem, get_opcode, get_sreg, set_flags};

#[test]
fn opcode_is_the_five_high_bits() {
    assert_eq!(get_opcode(0b1011_0011), 22);
    assert_eq!(get_opcode(0xFF), 31);
    assert_eq!(get_opcode(0x07), 0);
}

#[test]
fn register_fields_are_the_three_low_bits() {
    assert_eq!(get_dreg(0b1011_0011), 3);
    assert_eq!(get_sreg(0xFF), 7);
    assert_eq!(get_sreg(0xF8), 0);
}

#[test]
fn opcode_and_destination_make_up_the_high_byte() {
    for b in 0..=255u8 {
        assert_eq!(get_opcode(b) as u16 * 8 + get_dreg(b) as u16, b as u16);
    }
}

#[test]
fn memory_and_immediate_are_the_low_byte() {
    assert_eq!(get_mem(200), 200);
    assert_eq!(get_imm(-5), -5);
}

#[test]
fn flags_follow_the_sign_of_the_result() {
    assert_eq!(set_flags(0), (true, false));
    assert_eq!(set_flags(5), (false, false));
    assert_eq!(set_flags(-3), (false, true));
    assert_eq!(set_flags(i8::MIN), (false, true));
}

#[test]
fn window_maps_fields_into_general_registers() {
    assert_eq!(get_grwp(5, 0), 5);
    assert_eq!(get_grwp(5, 7), 12);
    assert_eq!(get_grwp(35, 3), 6);
    assert_eq!(get_grwp(0, 0), 32);
    assert_eq!(get_grwp(255, 255), 30);
}

#[test]
fn window_registers_are_never_system_registers() {
    for w in 0..=255u8 {
        for r in 0..8u8 {
            let g = get_grwp(w, r);
            assert!((5..=36).contains(&g));
        }
    }
}

#[test]
fn window_add_exact_values() {
    assert_eq!(get_grimm(5, 3), 8);
    assert_eq!(get_grimm(35, 3), 6);
    assert_eq!(get_grimm(5, -1), 36);
    assert_eq!(get_grimm(5, 127), 36);
    assert_eq!(get_grimm(36, 1), 5);
    assert_eq!(get_grimm(0, 0), 32);
    assert_eq!(get_grimm(200, -100), 4);
    assert_eq!(get_grimm(5, 64), 5);
}

#[test]
fn window_add_moves_fields_by_the_immediate() {
    for w in 0..=255u8 {
        for imm in -128..=127i8 {
            let nw = get_grimm(w, imm);
            assert!((-26..=36).contains(&nw));
            assert_eq!((nw as i32 - w as i32 - imm as i32).rem_euclid(32), 0);
            for r in 0..8u8 {
                let moved = get_grwp(nw as u8, r) as i32;
                let expected = (w as i32 + imm as i32 + r as i32 + 27).rem_euclid(32) + 5;
                assert_eq!(moved, expected);
            }
        }
    }
}
