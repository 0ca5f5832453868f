//! End-to-end tests of the interpreter through its public interface.
//!
//! Register effects are observed through skip instructions: a `3xnn` or
//! `3F nn` placed after the instruction under test either skips a trap
//! opcode (`FFFF`, which no machine accepts) or runs into it, so a
//! successful cycle proves the register value.

use chip8::{BeepHandler, Chip8, Chip8Error, DrawHandler};

struct Recorder {
    draws: Vec<Vec<u8>>,
    beeps: usize,
}

impl Recorder {
    fn new() -> Self {
        Recorder { draws: Vec::new(), beeps: 0 }
    }
}

impl DrawHandler for Recorder {
    fn on_draw(&mut self, display: Vec<u8>) {
        self.draws.push(display);
    }
}

impl BeepHandler for Recorder {
    fn on_beep(&mut self) {
        self.beeps += 1;
    }
}

fn machine(program: &[u8]) -> Chip8 {
    Chip8::new(program, None).unwrap()
}

fn run_ok(m: &mut Chip8, rec: &mut Recorder, cycles: usize) {
    for _ in 0..cycles {
        m.cycle(rec).unwrap();
    }
}

// ---------------------------------------------------------------------------
// Construction.
// ---------------------------------------------------------------------------

#[test]
fn construct_with_largest_program_succeeds() {
    let program = vec![0x11u8; 4096 - 0x200];
    let m = Chip8::new(&program, None).unwrap();
    let mem = m.memory();
    assert_eq!(mem.len(), 4096);
    assert_eq!(mem[0x200], 0x11);
    assert_eq!(mem[4095], 0x11);
}

#[test]
fn construct_with_oversized_program_fails() {
    let program = vec![0x11u8; 4096 - 0x200 + 1];
    let r = Chip8::new(&program, None);
    assert!(matches!(r, Err(Chip8Error::ProgramTooLarge)));
}

#[test]
fn memory_layout_after_construction() {
    let m = machine(&[0xAB, 0xCD]);
    let mem = m.memory();
    assert_eq!(mem.len(), 4096);
    // Reserved region below the font is zero.
    assert_eq!(&mem[0x000..0x050], &[0u8; 0x50][..]);
    // Built-in font: glyph 0 starts with 0xF0, glyph F ends with 0x80.
    assert_eq!(mem[0x050], 0xF0);
    assert_eq!(mem[0x09F], 0x80);
    // Between font and program: zero.
    assert_eq!(&mem[0x0A0..0x200], &[0u8; 0x160][..]);
    // Program image, then zero.
    assert_eq!(mem[0x200], 0xAB);
    assert_eq!(mem[0x201], 0xCD);
    assert_eq!(&mem[0x202..], &[0u8; 4096 - 0x202][..]);
}

#[test]
fn custom_font_is_loaded() {
    let m = Chip8::new(&[], Some([0xAA; 80])).unwrap();
    let mem = m.memory();
    assert_eq!(&mem[0x050..0x0A0], &[0xAAu8; 80][..]);
}

#[test]
fn display_starts_blank() {
    let m = machine(&[]);
    let d = m.display();
    assert_eq!(d.len(), 256);
    assert!(d.iter().all(|&b| b == 0));
}

// ---------------------------------------------------------------------------
// Arithmetic and logic.
// ---------------------------------------------------------------------------

#[test]
fn add_with_carry_sets_sum_and_flag() {
    // V0 = 200, V1 = 100, V0 += V1: V0 = 44, VF = 1.
    let mut m = machine(&[
        0x60, 0xC8, // V0 = 200
        0x61, 0x64, // V1 = 100
        0x80, 0x14, // V0 += V1 with carry
        0x30, 0x2C, // skip if V0 == 44
        0xFF, 0xFF, // trap
        0x3F, 0x01, // skip if VF == 1
        0xFF, 0xFF, // trap
        0x00, 0xE0, // landing
    ]);
    let mut rec = Recorder::new();
    run_ok(&mut m, &mut rec, 6);
}

#[test]
fn add_without_carry_clears_flag() {
    let mut m = machine(&[
        0x60, 0x05, // V0 = 5
        0x61, 0x07, // V1 = 7
        0x80, 0x14, // V0 += V1 with carry
        0x30, 0x0C, // skip if V0 == 12
        0xFF, 0xFF, // trap
        0x3F, 0x00, // skip if VF == 0
        0xFF, 0xFF, // trap
        0x00, 0xE0, // landing
    ]);
    let mut rec = Recorder::new();
    run_ok(&mut m, &mut rec, 6);
}

#[test]
fn sub_with_larger_minuend_sets_flag() {
    // V0 = 10, V1 = 3: V0 - V1 = 7 and VF = 1.
    let mut m = machine(&[
        0x60, 0x0A, 0x61, 0x03, 0x80, 0x15, // V0 -= V1
        0x30, 0x07, // skip if V0 == 7
        0xFF, 0xFF, 0x3F, 0x01, // skip if VF == 1
        0xFF, 0xFF, 0x00, 0xE0,
    ]);
    let mut rec = Recorder::new();
    run_ok(&mut m, &mut rec, 6);
}

#[test]
fn sub_with_smaller_minuend_wraps_and_clears_flag() {
    // V0 = 3, V1 = 10: V0 = 256 - 7 = 249, VF = 0.
    let mut m = machine(&[
        0x60, 0x03, 0x61, 0x0A, 0x80, 0x15, // V0 -= V1
        0x30, 0xF9, // skip if V0 == 249
        0xFF, 0xFF, 0x3F, 0x00, // skip if VF == 0
        0xFF, 0xFF, 0x00, 0xE0,
    ]);
    let mut rec = Recorder::new();
    run_ok(&mut m, &mut rec, 6);
}

#[test]
fn sub_of_equal_values_wraps_to_zero() {
    // V0 = 9, V1 = 9: V0 = (256 - 0) mod 256 = 0, VF = 0.
    let mut m = machine(&[
        0x60, 0x09, 0x61, 0x09, 0x80, 0x15, 0x30, 0x00, // skip if V0 == 0
        0xFF, 0xFF, 0x3F, 0x00, 0xFF, 0xFF, 0x00, 0xE0,
    ]);
    let mut rec = Recorder::new();
    run_ok(&mut m, &mut rec, 6);
}

#[test]
fn reverse_sub_sets_flag_when_subtrahend_larger() {
    // V0 = 5, V1 = 10: V0 = V1 - V0 = 5, VF = 1.
    let mut m = machine(&[
        0x60, 0x05, 0x61, 0x0A, 0x80, 0x17, // V0 = V1 - V0
        0x30, 0x05, 0xFF, 0xFF, 0x3F, 0x01, 0xFF, 0xFF, 0x00, 0xE0,
    ]);
    let mut rec = Recorder::new();
    run_ok(&mut m, &mut rec, 6);
}

#[test]
fn add_immediate_wraps_without_flag() {
    // V0 = 255, V0 += 2 wraps to 1 and leaves VF alone (0).
    let mut m = machine(&[
        0x60, 0xFF, 0x70, 0x02, 0x30, 0x01, // skip if V0 == 1
        0xFF, 0xFF, 0x3F, 0x00, // skip if VF == 0 (untouched)
        0xFF, 0xFF, 0x00, 0xE0,
    ]);
    let mut rec = Recorder::new();
    run_ok(&mut m, &mut rec, 5);
}

#[test]
fn bitwise_or_and_xor() {
    let mut m = machine(&[
        0x60, 0x0C, 0x61, 0x0A, 0x80, 0x11, // V0 |= V1 -> 0x0E
        0x30, 0x0E, 0xFF, 0xFF, // verify
        0x60, 0x0C, 0x80, 0x12, // V0 = 0x0C, V0 &= V1 -> 0x08
        0x30, 0x08, 0xFF, 0xFF, // verify
        0x60, 0x0C, 0x80, 0x13, // V0 = 0x0C, V0 ^= V1 -> 0x06
        0x30, 0x06, 0xFF, 0xFF, // verify
        0x80, 0x10, // V0 = V1 -> 0x0A
        0x30, 0x0A, 0xFF, 0xFF, // verify
        0x00, 0xE0,
    ]);
    let mut rec = Recorder::new();
    run_ok(&mut m, &mut rec, 13);
}

// ---------------------------------------------------------------------------
// Control flow.
// ---------------------------------------------------------------------------

#[test]
fn jump_moves_the_program_counter() {
    let mut m = machine(&[
        0x12, 0x06, // jump 0x206
        0xFF, 0xFF, 0xFF, 0xFF, // skipped over
        0x00, 0xE0, // at 0x206
    ]);
    let mut rec = Recorder::new();
    run_ok(&mut m, &mut rec, 2);
}

#[test]
fn call_then_return_resumes_after_the_call() {
    let mut m = machine(&[
        0x22, 0x06, // 0x200: call 0x206
        0x00, 0xE0, // 0x202: executed third
        0xFF, 0xFF, // 0x204: never reached
        0x00, 0xEE, // 0x206: return
    ]);
    let mut rec = Recorder::new();
    run_ok(&mut m, &mut rec, 3);
}

#[test]
fn skip_instructions_take_both_branches() {
    let mut m = machine(&[
        0x60, 0x05, // V0 = 5
        0x40, 0x05, // skip if V0 != 5: no skip
        0x61, 0x05, // V1 = 5
        0x50, 0x10, // skip if V0 == V1: skip
        0xFF, 0xFF, // trap
        0x90, 0x10, // skip if V0 != V1: no skip
        0x62, 0x07, // V2 = 7
        0x90, 0x20, // skip if V0 != V2: skip
        0xFF, 0xFF, // trap
        0x00, 0xE0,
    ]);
    let mut rec = Recorder::new();
    run_ok(&mut m, &mut rec, 8);
}

// ---------------------------------------------------------------------------
// Fatal conditions.
// ---------------------------------------------------------------------------

#[test]
fn unknown_opcode_is_an_error_and_mutates_nothing() {
    let mut m = machine(&[0xFF, 0xFF]);
    let before = m.memory();
    let mut rec = Recorder::new();
    let r = m.cycle(&mut rec);
    assert!(matches!(r, Err(Chip8Error::UnknownOpcode)));
    // A failing cycle applies no effects; retrying gives the same error.
    assert_eq!(m.memory(), before);
    let r2 = m.cycle(&mut rec);
    assert!(matches!(r2, Err(Chip8Error::UnknownOpcode)));
}

#[test]
fn return_with_empty_stack_is_an_error() {
    let mut m = machine(&[0x00, 0xEE]);
    let mut rec = Recorder::new();
    assert!(matches!(m.cycle(&mut rec), Err(Chip8Error::EmptyStack)));
}

#[test]
fn program_counter_out_of_bounds_is_an_error() {
    let mut m = machine(&[0x1F, 0xFF]); // jump 0xFFF
    let mut rec = Recorder::new();
    m.cycle(&mut rec).unwrap();
    assert!(matches!(m.cycle(&mut rec), Err(Chip8Error::PcOutOfBounds)));
}

#[test]
fn sprite_read_past_memory_is_an_error() {
    let mut m = machine(&[
        0xAF, 0xFF, // I = 0xFFF
        0xD0, 0x12, // draw 2 rows: would read 0xFFF and 0x1000
    ]);
    let mut rec = Recorder::new();
    m.cycle(&mut rec).unwrap();
    assert!(matches!(m.cycle(&mut rec), Err(Chip8Error::SpriteOutOfBounds)));
    assert_eq!(rec.draws.len(), 0);
}

#[test]
fn sprite_read_of_last_byte_is_allowed() {
    let mut m = machine(&[
        0xAF, 0xFF, // I = 0xFFF
        0xD0, 0x11, // draw 1 row: reads byte 0xFFF only
    ]);
    let mut rec = Recorder::new();
    run_ok(&mut m, &mut rec, 2);
    assert_eq!(rec.draws.len(), 1);
}

// ---------------------------------------------------------------------------
// The display.
// ---------------------------------------------------------------------------

#[test]
fn draw_blits_with_xor_and_reports_the_snapshot() {
    let mut m = machine(&[
        0xA2, 0x0C, // I = 0x20C
        0x60, 0x0A, // V0 = 10
        0x61, 0x05, // V1 = 5
        0xD0, 0x12, // draw two rows at (10, 5)
        0x00, 0x00, // padding (never executed)
        0x00, 0x00,
        0xFF, 0x81, // sprite data
    ]);
    let mut rec = Recorder::new();
    run_ok(&mut m, &mut rec, 4);
    let d = m.display();
    // Column 10 = byte 1 of the row, bit offset 2.
    assert_eq!(d[5 * 8 + 1], 0xFF >> 2);
    assert_eq!(d[5 * 8 + 2], 0xFF << 6);
    assert_eq!(d[6 * 8 + 1], 0x81 >> 2);
    assert_eq!(d[6 * 8 + 2], 0x81 << 6);
    let lit: usize = (0..256).filter(|&j| d[j] != 0).count();
    assert_eq!(lit, 4);
    // The callback saw exactly this bitmap, by value.
    assert_eq!(rec.draws.len(), 1);
    assert_eq!(rec.draws[0], d);
}

#[test]
fn drawing_twice_restores_the_display_and_flags_collision() {
    let mut m = machine(&[
        0xA2, 0x0C, // I = 0x20C
        0x60, 0x0A, // V0 = 10
        0x61, 0x05, // V1 = 5
        0xD0, 0x12, // first draw
        0xD0, 0x12, // second draw: erases, collides
        0x3F, 0x01, // skip if VF == 1
        0xFF, 0x81, // sprite data, and trap if VF != 1
        0x00, 0xE0, // landing
    ]);
    let mut rec = Recorder::new();
    run_ok(&mut m, &mut rec, 4);
    assert!(m.display().iter().any(|&b| b != 0));
    run_ok(&mut m, &mut rec, 2);
    assert!(m.display().iter().all(|&b| b == 0));
    assert_eq!(rec.draws.len(), 2);
}

#[test]
fn first_draw_on_blank_display_reports_no_collision() {
    let mut m = machine(&[
        0xA0, 0x50, // I = font glyph 0
        0xD0, 0x05, // draw it at (0, 0)
        0x3F, 0x00, // skip if VF == 0
        0xFF, 0xFF, // trap
        0x62, 0x00, // harmless landing
    ]);
    let mut rec = Recorder::new();
    run_ok(&mut m, &mut rec, 4);
    assert_eq!(m.display()[0], 0xF0);
}

#[test]
fn clear_screen_blanks_everything() {
    let mut m = machine(&[
        0xA0, 0x50, // I = font glyph 0
        0xD0, 0x05, // draw it
        0x00, 0xE0, // clear
    ]);
    let mut rec = Recorder::new();
    run_ok(&mut m, &mut rec, 2);
    assert!(m.display().iter().any(|&b| b != 0));
    run_ok(&mut m, &mut rec, 1);
    let d = m.display();
    assert_eq!(d.len(), 256);
    assert!(d.iter().all(|&b| b == 0));
}

#[test]
fn sprite_at_right_edge_is_clipped_not_wrapped() {
    let mut m = machine(&[
        0xA2, 0x08, // I = 0x208
        0x60, 0x3C, // V0 = 60: byte 7 of the row, offset 4
        0xD0, 0x11, // draw one row at (60, V1 = 0)
        0x00, 0x00, // padding (never executed)
        0xFF, 0x00, // sprite data
    ]);
    let mut rec = Recorder::new();
    run_ok(&mut m, &mut rec, 3);
    let d = m.display();
    // The four pixels that fit; nothing spills into the next row.
    assert_eq!(d[7], 0x0F);
    assert_eq!(d[8], 0x00);
    let lit: usize = (0..256).filter(|&j| d[j] != 0).count();
    assert_eq!(lit, 1);
}

#[test]
fn horizontal_start_coordinates_wrap_around() {
    let mut m = machine(&[
        0xA2, 0x08, // I = 0x208
        0x60, 0x42, // V0 = 66: wraps to column 2
        0xD0, 0x11, // draw one row at (2, V1 = 0)
        0x00, 0x00,
        0xFF, 0x00, // sprite data
    ]);
    let mut rec = Recorder::new();
    run_ok(&mut m, &mut rec, 3);
    let d = m.display();
    assert_eq!(d[0], 0xFF >> 2);
    assert_eq!(d[1], 0xFF << 6);
}

#[test]
fn sprite_rows_below_the_bottom_are_skipped() {
    let mut m = machine(&[
        0xA0, 0x50, // I = font table
        0x61, 0x19, // V1 = 25
        0xD0, 0x1F, // draw 15 rows at (0, 25): only 7 fit
        0x3F, 0x00, // skip if VF == 0
        0xFF, 0xFF, // trap
        0x00, 0x00, // landing (stops before here)
    ]);
    let mut rec = Recorder::new();
    run_ok(&mut m, &mut rec, 4);
    let d = m.display();
    // Rows 25..32 hold the first seven font bytes of glyph 0 and 1.
    let expected = [0xF0, 0x90, 0x90, 0x90, 0xF0, 0x20, 0x60];
    for (i, &b) in expected.iter().enumerate() {
        assert_eq!(d[(25 + i) * 8], b);
    }
    // Rows above the sprite stayed blank.
    assert!((0..25 * 8).all(|j| d[j] == 0));
}

// ---------------------------------------------------------------------------
// Timers and the timed driver.
// ---------------------------------------------------------------------------

#[test]
fn timers_do_nothing_at_zero() {
    let mut m = machine(&[]);
    let mut rec = Recorder::new();
    for _ in 0..4 {
        m.timers(&mut rec);
    }
    assert_eq!(rec.beeps, 0);
}

#[test]
fn update_runs_a_cycle_only_after_its_threshold() {
    let mut m = machine(&[
        0xA0, 0x50, // I = font glyph 0
        0xD0, 0x01, // draw one row at (0, 0)
    ]);
    let mut rec = Recorder::new();
    let mut bell = Recorder::new();
    let t0: u64 = 2_000_000_000;
    // First call: both thresholds long passed; runs the first instruction.
    m.update(t0, &mut rec, &mut bell).unwrap();
    assert_eq!(rec.draws.len(), 0);
    let before = m.display();
    // One millisecond later: 1/700 s has not elapsed, nothing may change.
    m.update(t0 + 1_000_000, &mut rec, &mut bell).unwrap();
    assert_eq!(rec.draws.len(), 0);
    assert_eq!(m.display(), before);
    assert_eq!(bell.beeps, 0);
    // Three milliseconds later the executor is due again: the draw runs.
    m.update(t0 + 3_000_000, &mut rec, &mut bell).unwrap();
    assert_eq!(rec.draws.len(), 1);
    assert_eq!(m.display()[0], 0xF0);
}

#[test]
fn update_propagates_a_failing_cycle() {
    let mut m = machine(&[0xFF, 0xFF]);
    let mut rec = Recorder::new();
    let mut bell = Recorder::new();
    let r = m.update(2_000_000_000, &mut rec, &mut bell);
    assert!(matches!(r, Err(Chip8Error::UnknownOpcode)));
}
