use chip8::emulator::Chip8;
use chip8::instruction::{DecodeError, Instruction};
use chip8::machine::Halt;
use chip8::register::Register;

const EXAMPLE_CODE: &str = r#"
    200: A202
    202: 6000
    204: 6100
    206: D015
    208: F0
    209: 90
    "#;

fn v(chip8: &Chip8, n: u8) -> u8 {
    chip8.get8(Register::v_register_from(n).offset())
}

fn pc(chip8: &Chip8) -> u16 {
    chip8.get16(Register::PC.offset())
}

fn pixel(chip8: &Chip8, x: u8, y: u8) -> u8 {
    chip8.memory().get8_framebuffer(x, y)
}

#[test]
fn test_read_text() {
    let code = r#"
    200: A202
    202: 6000
    204: 6100
    206: D015
    208: F0
    209: 90
    "#;
    let chip8 = Chip8::load_from_text(code).unwrap();
    assert_eq!(chip8.get16(0x206), 0xD015);
}

#[test]
fn test_fetch() {
    let mut chip8 = Chip8::load_from_text(EXAMPLE_CODE).unwrap();
    // PC should always be set to 0x200 initially
    assert_eq!(chip8.fetch(), 0xA202);
}

#[test]
fn test_fetch_increment() {
    let mut chip8 = Chip8::load_from_text(EXAMPLE_CODE).unwrap();
    chip8.fetch();
    assert_eq!(chip8.get16(Register::PC.offset()), 0x202);
}

#[test]
fn test_execute_add_imm() {
    let code = r#"
    200: 6001
    202: 7001
    "#;
    let mut chip8 = Chip8::load_from_text(code).unwrap();
    chip8.test_run();
    assert_eq!(chip8.get8(Register::v_register_from(0).offset()), 0x02)
}

#[test]
fn test_execute_ld_dir() {
    let code = r#"
    200: 6000
    202: 6101
    204: 8010 // LD v0, v1
    "#;
    let mut chip8 = Chip8::load_from_text(code).unwrap();
    chip8.test_run();
    assert_eq!(chip8.get8(Register::v_register_from(0).offset()), 0x01)
}

#[test]
fn test_execute_or() {
    let code = r#"
    200: 6000
    202: 6101
    204: 8011 // OR v0, v1
    "#;
    let mut chip8 = Chip8::load_from_text(code).unwrap();
    chip8.test_run();
    assert_eq!(chip8.get8(Register::v_register_from(0).offset()), 0x01)
}

#[test]
fn test_execute_and() {
    let code = r#"
    200: 6000
    202: 6101
    204: 8012 // AND v0, v1
    "#;
    let mut chip8 = Chip8::load_from_text(code).unwrap();
    chip8.test_run();
    assert_eq!(chip8.get8(Register::v_register_from(0).offset()), 0x00)
}

#[test]
fn test_execute_xor() {
    let code = r#"
    200: 6007
    202: 6101
    204: 8013 // XOR v0, v1
    "#;
    let mut chip8 = Chip8::load_from_text(code).unwrap();
    chip8.test_run();
    assert_eq!(chip8.get8(Register::v_register_from(0).offset()), 0x06)
}

#[test]
fn test_execute_add_dir() {
    let code = r#"
    200: 6001
    202: 6101
    204: 8014 // ADD v0, v1
    "#;
    let mut chip8 = Chip8::load_from_text(code).unwrap();
    chip8.test_run();
    assert_eq!(chip8.get8(Register::v_register_from(0).offset()), 0x02)
}

#[test]
fn test_execute_sub() {
    // no borrowing
    {
        let code = r#"
    200: 6009
    202: 6103
    204: 8015 // SUB v0, v1
    "#;
        let mut chip8 = Chip8::load_from_text(code).unwrap();
        chip8.test_run();
        assert_eq!(chip8.get8(Register::v_register_from(0).offset()), 0x06);
        assert_eq!(chip8.get8(Register::v_register_from(0xF).offset()), 1);
    }
    // borrowing
    {
        let code = r#"
    200: 6003
    202: 6105
    204: 8015 // SUB v0, v1
    "#;
        let mut chip8 = Chip8::load_from_text(code).unwrap();
        chip8.test_run();
        assert_eq!(chip8.get8(Register::v_register_from(0).offset()), 0xFE);
        assert_eq!(chip8.get8(Register::v_register_from(0xF).offset()), 0);
    }
}

#[test]
fn test_execute_ldi() {
    let code = r#"
    200: A300 // SET IR, 0x300
    "#;
    let mut chip8 = Chip8::load_from_text(code).unwrap();
    chip8.test_run();
    assert_eq!(chip8.get16(Register::IR.offset()), 0x300)
}

#[test]
fn run_ends_at_the_zero_word() {
    let mut chip8 = Chip8::load_from_text("200: 6001\n202: 7001").unwrap();
    assert_eq!(chip8.test_run(), Some(Halt::EndOfProgram));
    assert_eq!(v(&chip8, 0), 0x02);
    assert_eq!(pc(&chip8), 0x206);
}

#[test]
fn run_cycles_stops_at_the_limit() {
    // 200: JP 200 loops forever
    let mut chip8 = Chip8::load_from_text("200: 1200").unwrap();
    assert_eq!(chip8.run_cycles(1000), None);
    assert_eq!(pc(&chip8), 0x200);
}

#[test]
fn fetch_advances_by_two_whatever_the_word() {
    let mut chip8 = Chip8::load_from_text("200: FFFF\n202: 0000\n204: 00E0").unwrap();
    assert_eq!(chip8.fetch(), 0xFFFF);
    assert_eq!(pc(&chip8), 0x202);
    assert_eq!(chip8.fetch(), 0x0000);
    assert_eq!(pc(&chip8), 0x204);
    assert_eq!(chip8.fetch(), 0x00E0);
    assert_eq!(pc(&chip8), 0x206);
}

#[test]
fn skip_if_equal_immediate() {
    // taken: V0 == 5
    let mut chip8 = Chip8::load_from_text("200: 6005\n202: 3005").unwrap();
    chip8.cycle().unwrap();
    chip8.cycle().unwrap();
    assert_eq!(pc(&chip8), 0x206);
    // not taken
    let mut chip8 = Chip8::load_from_text("200: 6005\n202: 3006").unwrap();
    chip8.cycle().unwrap();
    chip8.cycle().unwrap();
    assert_eq!(pc(&chip8), 0x204);
}

#[test]
fn skip_if_not_equal() {
    let mut chip8 = Chip8::load_from_text("200: 6005\n202: 4006").unwrap();
    chip8.cycle().unwrap();
    chip8.cycle().unwrap();
    assert_eq!(pc(&chip8), 0x206);
    let mut chip8 = Chip8::load_from_text("200: 6005\n202: 4005").unwrap();
    chip8.cycle().unwrap();
    chip8.cycle().unwrap();
    assert_eq!(pc(&chip8), 0x204);
}

#[test]
fn skip_if_registers_equal() {
    let mut chip8 = Chip8::load_from_text("200: 6007\n202: 6107\n204: 5010").unwrap();
    for _ in 0..3 {
        chip8.cycle().unwrap();
    }
    assert_eq!(pc(&chip8), 0x208);
    let mut chip8 = Chip8::load_from_text("200: 6007\n202: 6108\n204: 5010").unwrap();
    for _ in 0..3 {
        chip8.cycle().unwrap();
    }
    assert_eq!(pc(&chip8), 0x206);
}

#[test]
fn skipped_word_is_never_decoded() {
    // the skipped word FFFF is no instruction
    let mut chip8 = Chip8::load_from_text("200: 3000\n202: FFFF\n204: 6142").unwrap();
    assert_eq!(chip8.test_run(), Some(Halt::EndOfProgram));
    assert_eq!(v(&chip8, 1), 0x42);
}

#[test]
fn add_dir_sets_carry() {
    let mut chip8 = Chip8::load_from_text("200: 60FF\n202: 6101\n204: 8014").unwrap();
    chip8.test_run();
    assert_eq!(v(&chip8, 0), 0x00);
    assert_eq!(v(&chip8, 0xF), 1);
    let mut chip8 = Chip8::load_from_text("200: 6FFF\n202: 6001\n204: 6101\n206: 8014").unwrap();
    chip8.test_run();
    assert_eq!(v(&chip8, 0), 0x02);
    assert_eq!(v(&chip8, 0xF), 0);
}

#[test]
fn sub_flag_ignores_prior_vf() {
    // VF starts at 0, then at 1: the result is the same
    for prior in ["6F00", "6F01"] {
        let text = format!("200: {}\n202: 6009\n204: 6103\n206: 8015", prior);
        let mut chip8 = Chip8::load_from_text(&text).unwrap();
        chip8.test_run();
        assert_eq!(v(&chip8, 0), 0x06);
        assert_eq!(v(&chip8, 0xF), 1);
    }
    let mut chip8 = Chip8::load_from_text("200: 6003\n202: 6103\n204: 8015").unwrap();
    chip8.test_run();
    assert_eq!(v(&chip8, 0), 0x00);
    assert_eq!(v(&chip8, 0xF), 1);
}

#[test]
fn subn_sets_no_borrow() {
    let mut chip8 = Chip8::load_from_text("200: 6003\n202: 6105\n204: 8017").unwrap();
    chip8.test_run();
    assert_eq!(v(&chip8, 0), 0x02);
    assert_eq!(v(&chip8, 0xF), 1);
    let mut chip8 = Chip8::load_from_text("200: 6005\n202: 6103\n204: 6F01\n206: 8017").unwrap();
    chip8.test_run();
    assert_eq!(v(&chip8, 0), 0xFE);
    assert_eq!(v(&chip8, 0xF), 0);
}

#[test]
fn shifts_set_the_bit_shifted_out() {
    let mut chip8 = Chip8::load_from_text("200: 6005\n202: 8006").unwrap();
    chip8.test_run();
    assert_eq!(v(&chip8, 0), 0x02);
    assert_eq!(v(&chip8, 0xF), 1);
    let mut chip8 = Chip8::load_from_text("200: 6081\n202: 6F01\n204: 800E").unwrap();
    chip8.test_run();
    assert_eq!(v(&chip8, 0), 0x02);
    assert_eq!(v(&chip8, 0xF), 1);
    let mut chip8 = Chip8::load_from_text("200: 6041\n202: 6F01\n204: 800E").unwrap();
    chip8.test_run();
    assert_eq!(v(&chip8, 0), 0x82);
    assert_eq!(v(&chip8, 0xF), 0);
}

#[test]
fn add_imm_wraps_without_flag() {
    let mut chip8 = Chip8::load_from_text("200: 6FAA\n202: 60FF\n204: 7002").unwrap();
    chip8.test_run();
    assert_eq!(v(&chip8, 0), 0x01);
    assert_eq!(v(&chip8, 0xF), 0xAA);
}

#[test]
fn jumps() {
    let mut chip8 = Chip8::load_from_text("200: 1300").unwrap();
    chip8.cycle().unwrap();
    assert_eq!(pc(&chip8), 0x300);
    let mut chip8 = Chip8::load_from_text("200: 6010\n202: B300").unwrap();
    chip8.cycle().unwrap();
    chip8.cycle().unwrap();
    assert_eq!(pc(&chip8), 0x310);
}

#[test]
fn delay_timer_load_and_tick() {
    let mut chip8 = Chip8::load_from_text("200: 6003\n202: F015\n204: F107").unwrap();
    chip8.cycle().unwrap();
    chip8.cycle().unwrap();
    assert_eq!(chip8.delay_timer(), 3);
    chip8.tick_timer();
    assert_eq!(chip8.delay_timer(), 2);
    chip8.cycle().unwrap();
    assert_eq!(v(&chip8, 1), 2);
    chip8.tick_timer();
    chip8.tick_timer();
    chip8.tick_timer();
    assert_eq!(chip8.delay_timer(), 0);
}

#[test]
fn key_wait_blocks_until_a_key_arrives() {
    let mut chip8 = Chip8::load_from_text("200: F30A\n202: 6142").unwrap();
    assert!(!chip8.waiting_for_key());
    assert_eq!(chip8.test_run(), None);
    assert!(chip8.waiting_for_key());
    assert_eq!(pc(&chip8), 0x202);
    chip8.cycle().unwrap();
    assert_eq!(pc(&chip8), 0x202);
    chip8.press_key(0xB);
    assert!(!chip8.waiting_for_key());
    assert_eq!(v(&chip8, 3), 0xB);
    assert_eq!(chip8.test_run(), Some(Halt::EndOfProgram));
    assert_eq!(v(&chip8, 1), 0x42);
}

#[test]
fn key_press_without_wait_is_ignored() {
    let mut chip8 = Chip8::load_from_text("200: 6342").unwrap();
    chip8.press_key(0x5);
    for n in 0..16u8 {
        assert_eq!(v(&chip8, n), 0);
    }
}

#[test]
fn draw_hollow_box() {
    let code = "300: FF\n301: 81\n302: 81\n303: 81\n304: FF\n200: 6000\n202: 6100\n204: A300\n206: D015";
    let mut chip8 = Chip8::load_from_text(code).unwrap();
    assert_eq!(chip8.test_run(), Some(Halt::EndOfProgram));
    for y in 0..5u8 {
        for x in 0..8u8 {
            let edge = y == 0 || y == 4 || x == 0 || x == 7;
            assert_eq!(pixel(&chip8, x, y), edge as u8, "pixel ({}, {})", x, y);
        }
    }
    assert_eq!(pixel(&chip8, 8, 0), 0);
    assert_eq!(pixel(&chip8, 0, 5), 0);
    assert_eq!(v(&chip8, 0xF), 0);
}

#[test]
fn draw_reads_sprite_bits_left_to_right() {
    // 0x80: only the leftmost pixel
    let mut chip8 = Chip8::load_from_text("300: 80\n200: A300\n202: 6005\n204: 6106\n206: D011").unwrap();
    chip8.test_run();
    assert_eq!(pixel(&chip8, 5, 6), 1);
    for x in 6..13u8 {
        assert_eq!(pixel(&chip8, x, 6), 0);
    }
}

#[test]
fn draw_wraps_around_both_edges() {
    // 0xC0 twice: a 2x2 block anchored at (63, 31)
    let code = "300: C0\n301: C0\n200: A300\n202: 603F\n204: 611F\n206: D012";
    let mut chip8 = Chip8::load_from_text(code).unwrap();
    chip8.test_run();
    assert_eq!(pixel(&chip8, 63, 31), 1);
    assert_eq!(pixel(&chip8, 0, 31), 1);
    assert_eq!(pixel(&chip8, 63, 0), 1);
    assert_eq!(pixel(&chip8, 0, 0), 1);
    assert_eq!(pixel(&chip8, 1, 0), 0);
    assert_eq!(v(&chip8, 0xF), 0);
}

#[test]
fn draw_flag_follows_the_last_pixel() {
    // drawing the same sprite twice erases it; the last pixel of the
    // second draw (row 1, bit 7) is unset, so VF ends at 1
    let code = "300: FF\n301: FF\n200: A300\n202: 6000\n204: 6100\n206: D012\n208: D012";
    let mut chip8 = Chip8::load_from_text(code).unwrap();
    chip8.test_run();
    assert_eq!(pixel(&chip8, 0, 0), 0);
    assert_eq!(pixel(&chip8, 7, 1), 0);
    assert_eq!(v(&chip8, 0xF), 1);
    // here the last pixel drawn (bit 7 of 0xFE) is clear: VF ends at 0
    // even though earlier pixels were unset
    let code = "300: FF\n301: FE\n200: A300\n202: 6000\n204: 6100\n206: D011\n208: A301\n20A: D011";
    let mut chip8 = Chip8::load_from_text(code).unwrap();
    chip8.test_run();
    assert_eq!(pixel(&chip8, 0, 0), 0);
    assert_eq!(pixel(&chip8, 7, 0), 1);
    assert_eq!(v(&chip8, 0xF), 0);
}

#[test]
fn clear_screen_keeps_registers() {
    let code = "300: FF\n200: A300\n202: 6A55\n204: D001\n206: 00E0";
    let mut chip8 = Chip8::load_from_text(code).unwrap();
    chip8.test_run();
    for x in 0..64u8 {
        for y in 0..32u8 {
            assert_eq!(pixel(&chip8, x, y), 0);
        }
    }
    assert_eq!(v(&chip8, 0xA), 0x55);
    assert_eq!(chip8.get16(Register::IR.offset()), 0x300);
}

#[test]
fn draw_past_end_of_memory_halts() {
    let mut chip8 = Chip8::load_from_text("200: AFFE\n202: D003").unwrap();
    assert_eq!(chip8.test_run(), Some(Halt::OutOfBounds(0xFFE)));
    assert_eq!(chip8.get16(Register::IR.offset()), 0xFFE);
    assert_eq!(pc(&chip8), 0x204);
    let mut chip8 = Chip8::load_from_text("200: AFFE\n202: D002").unwrap();
    assert_eq!(chip8.test_run(), Some(Halt::EndOfProgram));
}

#[test]
fn unsupported_word_halts() {
    let mut chip8 = Chip8::load_from_text("200: 6001\n202: 2123").unwrap();
    assert_eq!(
        chip8.test_run(),
        Some(Halt::Unsupported(DecodeError { word: 0x2123 }))
    );
    assert_eq!(pc(&chip8), 0x204);
}

#[test]
fn pc_past_end_of_memory_halts() {
    let mut chip8 = Chip8::load_from_text("200: 1FFF").unwrap();
    assert_eq!(chip8.test_run(), Some(Halt::OutOfBounds(0xFFF)));
}

#[test]
fn execute_and_draw_update_directly() {
    let mut chip8 = Chip8::load_from_text("300: 80").unwrap();
    chip8.execute(Instruction::LDI(0x300)).unwrap();
    chip8.execute(Instruction::LDImm(Register::V2, 1)).unwrap();
    chip8
        .draw_update(Instruction::DRW(Register::V2, Register::V2, 1))
        .unwrap();
    assert_eq!(pixel(&chip8, 1, 1), 1);
    chip8.execute(Instruction::CLS).unwrap();
    assert_eq!(pixel(&chip8, 1, 1), 0);
}

#[test]
fn halted_machine_stays_halted() {
    let mut chip8 = Chip8::load_from_text("200: 6001").unwrap();
    assert_eq!(chip8.halted(), None);
    assert_eq!(chip8.cycle(), Ok(()));
    assert_eq!(chip8.cycle(), Err(Halt::EndOfProgram));
    assert_eq!(chip8.halted(), Some(Halt::EndOfProgram));
    let pc_at_halt = pc(&chip8);
    assert_eq!(chip8.cycle(), Err(Halt::EndOfProgram));
    assert_eq!(chip8.test_run(), Some(Halt::EndOfProgram));
    assert_eq!(pc(&chip8), pc_at_halt);
    assert_eq!(v(&chip8, 0), 1);
}
