use chip8::chip8::Chip8;
use chip8::errors::{DecodeErr, Error, RuntimeError};
use chip8::instructions::Instr;
use chip8::keyboard::Key;
use chip8::quirks::Quirks;
use chip8::reg::GPReg;

/// Encodes a program, one big-endian word per instruction.
fn rom(words: &[u16]) -> Vec<u8> {
    let mut bytes = Vec::new();
    for w in words {
        bytes.push((w >> 8) as u8);
        bytes.push((w & 0xFF) as u8);
    }
    bytes
}

fn machine(words: &[u16]) -> Chip8 {
    Chip8::load_rom(Quirks::new_preset(), &rom(words))
}

fn machine_with(quirks: Quirks, words: &[u16]) -> Chip8 {
    Chip8::load_rom(quirks, &rom(words))
}

fn run(c8: &mut Chip8, steps: usize) {
    for _ in 0..steps {
        c8.step(None).expect("program step failed");
    }
}

#[test]
fn load_rom_layout() {
    let c8 = machine(&[0x1234]);
    // Font glyphs: 0 starts with 0xF0, 1 with 0x20, F ends with 0x80.
    assert_eq!(c8.ram[0x00], 0xF0);
    assert_eq!(c8.ram[0x05], 0x20);
    assert_eq!(c8.ram[0x4F], 0x80);
    // Reserved area above the font is zero; program sits at 0x200.
    assert!(c8.ram[0x50..0x200].iter().all(|&b| b == 0));
    assert_eq!(c8.ram[0x200], 0x12);
    assert_eq!(c8.ram[0x201], 0x34);
    assert!(c8.ram[0x202..].iter().all(|&b| b == 0));
    assert_eq!(c8.pc, 0x200);
    assert_eq!(c8.sp, 0);
    assert_eq!(c8.i_reg.get(), 0);
    assert!(!c8.is_halted());
    assert!(c8.vram.iter().all(|&p| !p));
    assert_eq!(c8.timers.delay(), 0);
    assert_eq!(c8.timers.sound(), 0);
}

#[test]
fn step_returns_the_decoded_instruction() {
    let mut c8 = machine(&[0x6A02]);
    assert_eq!(c8.step(None), Ok(Instr::LDL(GPReg::VA, 0x02)));
    assert_eq!(c8.gpregs[0xA], 0x02);
    assert_eq!(c8.pc, 0x202);
}

#[test]
fn step_reports_decode_failures() {
    let mut c8 = machine(&[0xFFFF]);
    assert_eq!(
        c8.step(None),
        Err(RuntimeError::Decode(Error::InstrErr(DecodeErr::Opcode(0xFFFF))))
    );
    // The failed word's span is still consumed.
    assert_eq!(c8.pc, 0x202);

    let mut c8 = machine(&[0x8128]);
    assert_eq!(
        c8.step(None),
        Err(RuntimeError::Decode(Error::InstrErr(DecodeErr::Subcode(0x8, 0x8))))
    );
}

#[test]
fn addc_sets_carry() {
    // 200 + 100 = 300: wraps to 44 with the carry flag set.
    let mut c8 = machine(&[0x60C8, 0x6164, 0x8014]);
    run(&mut c8, 3);
    assert_eq!(c8.gpregs[0x0], 44);
    assert_eq!(c8.gpregs[0xF], 1);

    // 5 + 3 = 8: no carry.
    let mut c8 = machine(&[0x6005, 0x6103, 0x8014]);
    run(&mut c8, 3);
    assert_eq!(c8.gpregs[0x0], 8);
    assert_eq!(c8.gpregs[0xF], 0);
}

#[test]
fn subc_inverts_borrow() {
    // 10 - 3 = 7: no borrow, so VF = 1.
    let mut c8 = machine(&[0x600A, 0x6103, 0x8015]);
    run(&mut c8, 3);
    assert_eq!(c8.gpregs[0x0], 7);
    assert_eq!(c8.gpregs[0xF], 1);

    // 3 - 10 wraps to 249: borrow, so VF = 0.
    let mut c8 = machine(&[0x6003, 0x610A, 0x8015]);
    run(&mut c8, 3);
    assert_eq!(c8.gpregs[0x0], 249);
    assert_eq!(c8.gpregs[0xF], 0);
}

#[test]
fn subn_inverts_borrow_the_other_way() {
    // V0 = V1 - V0 = 10 - 3 = 7: no borrow, VF = 1.
    let mut c8 = machine(&[0x6003, 0x610A, 0x8017]);
    run(&mut c8, 3);
    assert_eq!(c8.gpregs[0x0], 7);
    assert_eq!(c8.gpregs[0xF], 1);
}

#[test]
fn stack_bounds() {
    // A subroutine that calls its own address: every step pushes a frame.
    let mut c8 = machine(&[0x2200]);
    for k in 1..=16 {
        assert_eq!(c8.step(None), Ok(Instr::CALL(chip8::numtypes::u12::of(0x200))));
        assert_eq!(c8.sp, k);
    }
    // The seventeenth call finds the stack full.
    assert_eq!(c8.step(None), Err(RuntimeError::StackOverflow(0x200)));

    // A return with an empty stack underflows.
    let mut c8 = machine(&[0x00EE]);
    assert_eq!(c8.step(None), Err(RuntimeError::StackUnderflow(0x200)));
}

#[test]
fn call_and_ret_round_trip() {
    // CALL 0x204; the subroutine there returns; execution resumes at 0x202.
    let mut c8 = machine(&[0x2204, 0x0000, 0x00EE]);
    assert_eq!(c8.step(None), Ok(Instr::CALL(chip8::numtypes::u12::of(0x204))));
    assert_eq!(c8.pc, 0x204);
    assert_eq!(c8.sp, 1);
    assert_eq!(c8.step(None), Ok(Instr::RET));
    assert_eq!(c8.pc, 0x202);
    assert_eq!(c8.sp, 0);
}

#[test]
fn timers_decrement_at_most_once_and_never_below_zero() {
    // DT is set to 5; a later step may tick it down by at most one.
    let mut c8 = machine(&[0x6005, 0xF015, 0xF007]);
    run(&mut c8, 3);
    let d = c8.timers.delay();
    assert!(d == 5 || d == 4, "delay was {d}");
    // MOVDT observed the post-tick value.
    assert_eq!(c8.gpregs[0x0], d);
    // A zero counter stays at zero, however often the timers tick.
    assert_eq!(c8.timers.sound(), 0);
}

#[test]
fn timer_registers_move_both_ways() {
    let mut c8 = machine(&[0x6009, 0xF015, 0xF018]);
    run(&mut c8, 3);
    assert!(c8.timers.delay() <= 9);
    assert_eq!(c8.timers.sound(), c8.gpregs[0x0]);
}

#[test]
fn drw_clips_at_the_right_edge() {
    // An 8x1 all-set sprite drawn at (60, 0): only 4 pixels land.
    let mut c8 = machine(&[0x603C, 0x6100, 0xA20A, 0xD011, 0xD011, 0xFF00]);
    run(&mut c8, 4);
    let lit: Vec<usize> = (0..64 * 32).filter(|&i| c8.vram[i]).collect();
    assert_eq!(lit, vec![60, 61, 62, 63]);
    // Nothing wrapped onto the next row, and nothing was erased yet.
    assert_eq!(c8.gpregs[0xF], 0);

    // Drawing the same sprite again erases those pixels and reports it.
    run(&mut c8, 1);
    assert!(c8.vram.iter().all(|&p| !p));
    assert_eq!(c8.gpregs[0xF], 1);
}

#[test]
fn drw_wraps_start_coordinates() {
    // Start (64, 32) wraps to (0, 0) before drawing.
    let mut c8 = machine(&[0x6040, 0x6120, 0xA20A, 0xD011, 0x0000, 0x8000]);
    run(&mut c8, 4);
    assert!(c8.vram[0]);
    assert!(!c8.vram[1]);
}

#[test]
fn cls_clears_the_display() {
    let mut c8 = machine(&[0x6000, 0x6100, 0xA20A, 0xD011, 0x00E0, 0xFF00]);
    run(&mut c8, 4);
    assert!(c8.vram.iter().any(|&p| p));
    run(&mut c8, 1);
    assert!(c8.vram.iter().all(|&p| !p));
}

#[test]
fn and_resets_vf_only_under_the_quirk() {
    let with_reset = Quirks { vf_reset: true, memory: false, shifting: false };
    let mut c8 = machine_with(with_reset, &[0x6F07, 0x6003, 0x6105, 0x8012]);
    run(&mut c8, 4);
    assert_eq!(c8.gpregs[0x0], 3 & 5);
    assert_eq!(c8.gpregs[0xF], 0);

    let without_reset = Quirks { vf_reset: false, memory: false, shifting: false };
    let mut c8 = machine_with(without_reset, &[0x6F07, 0x6003, 0x6105, 0x8012]);
    run(&mut c8, 4);
    assert_eq!(c8.gpregs[0x0], 3 & 5);
    assert_eq!(c8.gpregs[0xF], 7);
}

#[test]
fn shifts_honor_the_shifting_quirk() {
    // With the quirk clear the source is Vy.
    let legacy = Quirks { vf_reset: false, memory: false, shifting: false };
    let mut c8 = machine_with(legacy, &[0x6006, 0x610B, 0x8016]);
    run(&mut c8, 3);
    assert_eq!(c8.gpregs[0x0], 0x0B >> 1);
    assert_eq!(c8.gpregs[0xF], 1);

    // With the quirk set the source is Vx itself.
    let modern = Quirks { vf_reset: false, memory: false, shifting: true };
    let mut c8 = machine_with(modern, &[0x6006, 0x610B, 0x8016]);
    run(&mut c8, 3);
    assert_eq!(c8.gpregs[0x0], 6 >> 1);
    assert_eq!(c8.gpregs[0xF], 0);

    // Left shift captures the top bit of the source.
    let mut c8 = machine_with(legacy, &[0x6000, 0x6181, 0x801E]);
    run(&mut c8, 3);
    assert_eq!(c8.gpregs[0x0], 0x02);
    assert_eq!(c8.gpregs[0xF], 1);
}

#[test]
fn ldkb_polls_until_a_key_event_arrives() {
    let mut c8 = machine(&[0xF00A]);
    // No key event: the same instruction is reported and pc stands still.
    assert_eq!(c8.step(None), Ok(Instr::LDKB(GPReg::V0)));
    assert_eq!(c8.pc, 0x200);
    assert_eq!(c8.gpregs[0x0], 0);
    assert_eq!(c8.step(None), Ok(Instr::LDKB(GPReg::V0)));
    assert_eq!(c8.pc, 0x200);
    assert_eq!(c8.gpregs[0x0], 0);
    // A key event completes the wait and stores the key value.
    assert_eq!(c8.step(Some(Key::K5)), Ok(Instr::LDKB(GPReg::V0)));
    assert_eq!(c8.pc, 0x202);
    assert_eq!(c8.gpregs[0x0], 5);
}

#[test]
fn skp_and_sknp_read_the_keyboard() {
    let mut c8 = machine(&[0x6007, 0xE09E]);
    c8.keyboard.set_key(Key::K7, true);
    run(&mut c8, 2);
    assert_eq!(c8.pc, 0x206, "SKP with the key down skips");

    let mut c8 = machine(&[0x6007, 0xE09E]);
    run(&mut c8, 2);
    assert_eq!(c8.pc, 0x204, "SKP with the key up does not skip");

    let mut c8 = machine(&[0x6007, 0xE0A1]);
    run(&mut c8, 2);
    assert_eq!(c8.pc, 0x206, "SKNP with the key up skips");
}

#[test]
fn key_tests_reject_values_above_fifteen() {
    let mut c8 = machine(&[0x6010, 0xE09E]);
    c8.step(None).unwrap();
    assert_eq!(c8.step(None), Err(RuntimeError::InvalidKey(0x202, 0x10)));

    let mut c8 = machine(&[0x6010, 0xE0A1]);
    c8.step(None).unwrap();
    assert_eq!(c8.step(None), Err(RuntimeError::InvalidKey(0x202, 0x10)));
}

#[test]
fn conditional_skips() {
    // SEQ taken, SNELIT not taken.
    let mut c8 = machine(&[0x6005, 0x3005]);
    run(&mut c8, 2);
    assert_eq!(c8.pc, 0x206);

    let mut c8 = machine(&[0x6005, 0x4005]);
    run(&mut c8, 2);
    assert_eq!(c8.pc, 0x204);

    // SE and SNE on register pairs.
    let mut c8 = machine(&[0x6005, 0x6105, 0x5010]);
    run(&mut c8, 3);
    assert_eq!(c8.pc, 0x208);

    let mut c8 = machine(&[0x6005, 0x6106, 0x9010]);
    run(&mut c8, 3);
    assert_eq!(c8.pc, 0x208);
}

#[test]
fn jump_to_own_address_halts() {
    let mut c8 = machine(&[0x1200]);
    assert_eq!(c8.step(None), Ok(Instr::JP(chip8::numtypes::u12::of(0x200))));
    assert!(c8.is_halted());
    assert_eq!(c8.pc, 0x200);

    // The halted flag is the driver's to set and clear.
    c8.set_halted(false);
    assert!(!c8.is_halted());
}

#[test]
fn jpl_adds_v0() {
    let mut c8 = machine(&[0x6005, 0xB300]);
    run(&mut c8, 2);
    assert_eq!(c8.pc, 0x305);
}

#[test]
fn rnd_masks_the_random_byte() {
    // A zero mask forces zero, whatever the random source produced.
    let mut c8 = machine(&[0x60FF, 0xC000]);
    run(&mut c8, 2);
    assert_eq!(c8.gpregs[0x0], 0);

    let mut c8 = machine(&[0xC00F]);
    run(&mut c8, 1);
    assert!(c8.gpregs[0x0] <= 0x0F);
}

#[test]
fn ldi_addi_and_ldspr_drive_the_index_register() {
    let mut c8 = machine(&[0xA2F0]);
    run(&mut c8, 1);
    assert_eq!(c8.i_reg.get(), 0x2F0);

    // ADDI wraps within the 12-bit address space.
    let mut c8 = machine(&[0x60FF, 0xAFFF, 0xF01E]);
    run(&mut c8, 3);
    assert_eq!(c8.i_reg.get(), 0x0FE);

    // The glyph for digit 7 sits at 7 * 5, and holds the 7 glyph rows.
    let mut c8 = machine(&[0x6007, 0xF029]);
    run(&mut c8, 2);
    assert_eq!(c8.i_reg.get(), 35);
    assert_eq!(c8.ram[35..40], [0xF0, 0x10, 0x20, 0x40, 0x40]);
}

#[test]
fn ldbcd_stores_decimal_digits() {
    let mut c8 = machine(&[0x60EA, 0xA300, 0xF033]);
    run(&mut c8, 3);
    assert_eq!(c8.ram[0x300], 2);
    assert_eq!(c8.ram[0x301], 3);
    assert_eq!(c8.ram[0x302], 4);

    let mut c8 = machine(&[0x6007, 0xA300, 0xF033]);
    run(&mut c8, 3);
    assert_eq!(c8.ram[0x300..0x303], [0, 0, 7]);
}

#[test]
fn pushreg_copies_registers_and_advances_i_under_the_quirk() {
    let mut c8 = machine(&[0x6011, 0x6122, 0xA400, 0xF155]);
    run(&mut c8, 4);
    assert_eq!(c8.ram[0x400], 0x11);
    assert_eq!(c8.ram[0x401], 0x22);
    assert_eq!(c8.i_reg.get(), 0x402, "the memory quirk advances I");

    let legacy = Quirks { vf_reset: true, memory: false, shifting: false };
    let mut c8 = machine_with(legacy, &[0x6011, 0x6122, 0xA400, 0xF155]);
    run(&mut c8, 4);
    assert_eq!(c8.ram[0x400], 0x11);
    assert_eq!(c8.i_reg.get(), 0x400, "without the quirk I stands still");
}

#[test]
fn popreg_reads_registers_back() {
    // The block at 0x202 is the POPREG instruction's own bytes.
    let mut c8 = machine(&[0xA202, 0xF165]);
    run(&mut c8, 2);
    assert_eq!(c8.gpregs[0x0], 0xF1);
    assert_eq!(c8.gpregs[0x1], 0x65);
    assert_eq!(c8.i_reg.get(), 0x204);
}

#[test]
fn register_moves_and_logic() {
    let mut c8 = machine(&[0x600C, 0x6103, 0x8010]);
    run(&mut c8, 3);
    assert_eq!(c8.gpregs[0x0], 3);

    let mut c8 = machine(&[0x600C, 0x6103, 0x8011]);
    run(&mut c8, 3);
    assert_eq!(c8.gpregs[0x0], 0x0F);

    let mut c8 = machine(&[0x600C, 0x6105, 0x8013]);
    run(&mut c8, 3);
    assert_eq!(c8.gpregs[0x0], 0x0C ^ 0x05);

    // ADDL wraps without touching the flag.
    let mut c8 = machine(&[0x60FF, 0x7002]);
    run(&mut c8, 2);
    assert_eq!(c8.gpregs[0x0], 1);
    assert_eq!(c8.gpregs[0xF], 0);
}

#[test]
fn keyboard_reports_the_lowest_pressed_key() {
    let mut c8 = machine(&[0x0000]);
    assert_eq!(c8.keyboard.key_pressed(), None);
    c8.keyboard.set_key(Key::K9, true);
    c8.keyboard.set_key(Key::K3, true);
    assert_eq!(c8.keyboard.key_pressed(), Some(Key::K3));
    c8.keyboard.set_key(Key::K3, false);
    assert_eq!(c8.keyboard.key_pressed(), Some(Key::K9));
}

#[test]
fn empty_and_full_size_programs_load() {
    let c8 = Chip8::load_rom(Quirks::new_preset(), &[]);
    assert_eq!(c8.pc, 0x200);
    assert!(c8.ram[0x200..].iter().all(|&b| b == 0));

    // The largest accepted program fills memory up to its very last byte.
    let big = vec![0xABu8; 0xDFF];
    let c8 = Chip8::load_rom(Quirks::new_preset(), &big);
    assert_eq!(c8.ram[0xFFE], 0xAB);
    assert_eq!(c8.ram[0xFFF], 0);
}

#[test]
fn drw_with_zero_rows_draws_nothing() {
    let mut c8 = machine(&[0x6000, 0x6100, 0xA20A, 0xD010, 0xFF00]);
    run(&mut c8, 4);
    assert!(c8.vram.iter().all(|&p| !p));
    assert_eq!(c8.gpregs[0xF], 0);
}

#[test]
fn drw_clips_at_the_bottom_edge() {
    // Two rows starting at y = 31: the second row is clipped, not wrapped.
    let mut c8 = machine(&[0x6000, 0x611F, 0xA20A, 0xD012, 0xFF00, 0xFFFF]);
    run(&mut c8, 4);
    let lit: Vec<usize> = (0..64 * 32).filter(|&i| c8.vram[i]).collect();
    assert_eq!(lit, (31 * 64..31 * 64 + 8).collect::<Vec<usize>>());
}

#[test]
fn quirk_presets() {
    let old = Quirks::old_preset();
    assert!(old.vf_reset && !old.memory && !old.shifting);
    let new = Quirks::new_preset();
    assert!(new.vf_reset && new.memory && !new.shifting);
}
