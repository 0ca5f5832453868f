//! The mathematical model of the machine.
//!
//! [`Chip8View`] is the abstract state: plain sequences and integers.  The
//! spec functions here say exactly what every instruction, timer tick and
//! timing decision does to that state; the executable code in
//! [`crate::machine`] is proved against them.

use vstd::prelude::*;
use vstd::arithmetic::div_mod::lemma_fundamental_div_mod;
use vstd::arithmetic::div_mod::lemma_fundamental_div_mod_converse;

use crate::instr::Instr;
use crate::instr::decode;
use crate::font::font_seq;

verus! {

/// Number of bytes of addressable memory.
pub const MEM_SIZE: usize = 4096;

/// First address of the loaded program, and the initial program counter.
pub const PROGRAM_START: usize = 0x200;

/// First address of the font table.
pub const FONT_START: usize = 0x050;

/// Display width in pixels.
pub const DISPLAY_WIDTH: usize = 64;

/// Display height in pixels.
pub const DISPLAY_HEIGHT: usize = 32;

/// Bytes in the display bitmap: 64 x 32 pixels, 8 pixels per byte.
pub const DISPLAY_SIZE: usize = 256;

/// Executor rate when driven by wall-clock time, in steps per second: one
/// instruction per seven-hundredth of a second.
pub const CYCLE_RATE_HZ: u64 = 700;

/// Nanoseconds in one second.
pub const NANOS_PER_SEC: u64 = 1_000_000_000;

/// Timer decrement rate in ticks per second.
pub const TIMER_RATE_HZ: u64 = 60;

/// The fatal conditions of the machine.
#[derive(Clone, Copy, Debug, PartialEq, Eq, Structural)]
pub enum Chip8Error {
    /// The program image does not fit in memory above `0x200`.
    ProgramTooLarge,
    /// The program counter does not point at two readable bytes.
    PcOutOfBounds,
    /// The instruction bytes denote no instruction of this machine.
    UnknownOpcode,
    /// A return was executed with an empty call stack.
    EmptyStack,
    /// A sprite draw would read past the end of memory.
    SpriteOutOfBounds,
}

/// The abstract machine state.
#[verifier::ext_equal]
pub struct Chip8View {
    /// All 4096 bytes of memory.
    pub memory: Seq<u8>,
    /// The 256-byte display bitmap, 8 pixels per byte, row-major.
    pub display: Seq<u8>,
    /// The program counter.
    pub pc: u16,
    /// The index register `I`.
    pub i: u16,
    /// Return addresses of active subroutine calls.
    pub stack: Seq<u16>,
    /// The delay timer.
    pub delay_timer: u8,
    /// The sound timer.
    pub sound_timer: u8,
    /// The sixteen general-purpose registers `V0`..`VF`.
    pub registers: Seq<u8>,
    /// When the executor last ran, in nanoseconds of the injected clock.
    pub last_cycle_nanos: u64,
    /// When the timers last ticked, in nanoseconds of the injected clock.
    pub last_timer_nanos: u64,
}

impl Chip8View {
    /// The fixed sizes of the machine's buffers.
    pub open spec fn wf(self) -> bool {
        &&& self.memory.len() == MEM_SIZE
        &&& self.display.len() == DISPLAY_SIZE
        &&& self.registers.len() == 16
    }
}

/// The value of register `x`.
pub open spec fn reg(s: Chip8View, x: u8) -> u8 {
    s.registers[x as int]
}

/// A display with every pixel off.
pub open spec fn blank_display() -> Seq<u8> {
    Seq::new(DISPLAY_SIZE as nat, |j: int| 0u8)
}

/// The memory image after construction: font table at `FONT_START`, program
/// at `PROGRAM_START`, zero elsewhere.
pub open spec fn fresh_memory(program: Seq<u8>, font: Seq<u8>) -> Seq<u8> {
    Seq::new(
        MEM_SIZE as nat,
        |a: int|
            if FONT_START <= a < FONT_START + 80 {
                font[a - FONT_START]
            } else if PROGRAM_START <= a < PROGRAM_START + program.len() {
                program[a - PROGRAM_START]
            } else {
                0u8
            },
    )
}

/// The font a construction call loads: the caller's table, or the built-in
/// one.
pub open spec fn chosen_font(custom_font: Option<[u8; 80]>) -> Seq<u8> {
    match custom_font {
        Some(f) => f@,
        None => font_seq(),
    }
}

/// The machine state right after construction.
pub open spec fn fresh_state(program: Seq<u8>, font: Seq<u8>) -> Chip8View {
    Chip8View {
        memory: fresh_memory(program, font),
        display: blank_display(),
        pc: PROGRAM_START as u16,
        i: 0,
        stack: Seq::empty(),
        delay_timer: 0,
        sound_timer: 0,
        registers: Seq::new(16, |x: int| 0u8),
        last_cycle_nanos: 0,
        last_timer_nanos: 0,
    }
}

// ---------------------------------------------------------------------------
// Sprite drawing.
// ---------------------------------------------------------------------------

/// How many sprite rows are actually drawn: rows that would fall below the
/// bottom edge of the display are clipped, not wrapped.
pub open spec fn draw_rows(py: u8, n: u8) -> int {
    if py + n <= DISPLAY_HEIGHT {
        n as int
    } else {
        DISPLAY_HEIGHT - py
    }
}

/// The XOR mask a sprite applies to display byte `j`.
///
/// The sprite starts at pixel column `px` (so at byte `px / 8` with bit
/// offset `px % 8`) and row `py`; its `rows` row bytes are read from memory
/// at `i`.  A byte receives the row byte shifted right by the bit offset if
/// it contains the start column, the remaining bits shifted left if it is
/// the byte after — provided that byte is still inside the same display row
/// — and zero otherwise.
pub open spec fn sprite_mask_byte(
    mem: Seq<u8>,
    i: u16,
    px: u8,
    py: u8,
    rows: int,
    j: int,
) -> u8 {
    let xb: int = px as int / 8;
    let xo: int = px as int % 8;
    let r: int = j / 8;
    let c: int = j % 8;
    if py <= r < py + rows && c == xb {
        mem[i + (r - py)] >> (xo as u8)
    } else if py <= r < py + rows && c == xb + 1 && xo != 0 {
        mem[i + (r - py)] << ((8 - xo) as u8)
    } else {
        0u8
    }
}

/// The pixel column a draw starts at: `Vx`, wrapped into the display width.
pub open spec fn draw_px(regs: Seq<u8>, x: u8) -> u8 {
    regs[x as int] & 63
}

/// The pixel row a draw starts at: `Vy`, wrapped into the display height.
pub open spec fn draw_py(regs: Seq<u8>, y: u8) -> u8 {
    regs[y as int] & 31
}

/// The XOR mask of a `Dxyn` instruction on display byte `j`.
pub open spec fn draw_mask(
    mem: Seq<u8>,
    i: u16,
    regs: Seq<u8>,
    x: u8,
    y: u8,
    n: u8,
    j: int,
) -> u8 {
    let px: u8 = draw_px(regs, x);
    let py: u8 = draw_py(regs, y);
    sprite_mask_byte(mem, i, px, py, draw_rows(py, n), j)
}

/// A draw stays within memory: every row byte it reads exists.
pub open spec fn draw_ok(mem: Seq<u8>, i: u16, regs: Seq<u8>, y: u8, n: u8) -> bool {
    i + draw_rows(draw_py(regs, y), n) <= MEM_SIZE
}

/// The display after a `Dxyn` instruction: every byte XORed with the
/// sprite's mask.
pub open spec fn draw_display(
    mem: Seq<u8>,
    i: u16,
    regs: Seq<u8>,
    display: Seq<u8>,
    x: u8,
    y: u8,
    n: u8,
) -> Seq<u8> {
    Seq::new(DISPLAY_SIZE as nat, |j: int| display[j] ^ draw_mask(mem, i, regs, x, y, n, j))
}

/// Whether a `Dxyn` instruction collides: some drawn sprite bit lands on a
/// pixel that is already on, so the XOR turns it off.
pub open spec fn draw_collision(
    mem: Seq<u8>,
    i: u16,
    regs: Seq<u8>,
    display: Seq<u8>,
    x: u8,
    y: u8,
    n: u8,
) -> bool {
    exists|j: int| 0 <= j < DISPLAY_SIZE && display[j] & draw_mask(mem, i, regs, x, y, n, j) != 0
}

/// XOR and AND with an all-zero byte.
pub proof fn lemma_u8_bit_zero()
    by (bit_vector)
    ensures
        forall|a: u8| #[trigger] (a ^ 0u8) == a,
        forall|a: u8| #[trigger] (a & 0u8) == 0u8,
{
}

/// XOR with the same mask twice restores a byte, and the second
/// application collides exactly on the bits the first one turned on.
pub proof fn lemma_u8_xor_twice()
    by (bit_vector)
    ensures
        forall|a: u8, m: u8| #[trigger] ((a ^ m) ^ m) == a,
        forall|a: u8, m: u8| #[trigger] ((a ^ m) & m) == ((a ^ m) & !a),
{
}

/// How the sprite mask grows from `k` to `k + 1` drawn rows: row `k`
/// touches exactly the display byte containing its start column and — when
/// the sprite straddles a byte boundary and a next byte exists in the same
/// display row — the byte after it; every other byte keeps its mask.
pub proof fn lemma_sprite_mask_unroll(mem: Seq<u8>, i: u16, px: u8, py: u8, k: int, j: int)
    requires
        0 <= k,
        py + k < 32,
        px < 64,
        0 <= j < 256,
    ensures
        ({
            let xb: int = px as int / 8;
            let xo: int = px as int % 8;
            let di: int = (py + k) * 8 + xb;
            &&& sprite_mask_byte(mem, i, px, py, k, di) == 0
            &&& sprite_mask_byte(mem, i, px, py, k + 1, di) == mem[i + k] >> (xo as u8)
            &&& (xo != 0 && xb < 7) ==> {
                &&& sprite_mask_byte(mem, i, px, py, k, di + 1) == 0
                &&& sprite_mask_byte(mem, i, px, py, k + 1, di + 1) == mem[i + k] << ((8
                    - xo) as u8)
            }
            &&& (j != di && !(xo != 0 && xb < 7 && j == di + 1))
                ==> sprite_mask_byte(mem, i, px, py, k + 1, j) == sprite_mask_byte(
                mem,
                i,
                px,
                py,
                k,
                j,
            )
        }),
{
    let xb: int = px as int / 8;
    let xo: int = px as int % 8;
    let di: int = (py + k) * 8 + xb;
    assert(px as int / 8 < 8 && 0 <= px as int % 8 < 8) by (bit_vector)
        requires
            px < 64,
    ;
    lemma_fundamental_div_mod_converse(di, 8, py + k, xb);
    if xo != 0 && xb < 7 {
        lemma_fundamental_div_mod_converse(di + 1, 8, py + k, xb + 1);
    }
    if j != di && !(xo != 0 && xb < 7 && j == di + 1) {
        lemma_fundamental_div_mod(j, 8);
        if j / 8 == py + k {
            assert(j % 8 != xb);
            if j % 8 == xb + 1 {
                assert(xb < 7);
                assert(j == di + 1);
            }
        }
    }
}

// ---------------------------------------------------------------------------
// Instruction execution.
// ---------------------------------------------------------------------------

/// Whether `instr` can execute from `s` (the program counter already
/// advanced past the instruction).
pub open spec fn instr_ok(s: Chip8View, instr: Instr) -> bool {
    match instr {
        Instr::Return => s.stack.len() > 0,
        Instr::Draw(x, y, n) => draw_ok(s.memory, s.i, s.registers, y, n),
        _ => true,
    }
}

/// The state after executing `instr` from `s`, for an `instr` with
/// `instr_ok(s, instr)`.  `s.pc` has already been advanced past the
/// instruction, so jumps and calls overwrite it and skips add to it.
pub open spec fn instr_step(s: Chip8View, instr: Instr) -> Chip8View {
    match instr {
        Instr::ClearScreen => Chip8View { display: blank_display(), ..s },
        Instr::Return => Chip8View { pc: s.stack.last(), stack: s.stack.drop_last(), ..s },
        Instr::Jump(addr) => Chip8View { pc: addr, ..s },
        Instr::Call(addr) => Chip8View { pc: addr, stack: s.stack.push(s.pc), ..s },
        Instr::SkipEqImm(x, nn) => if reg(s, x) == nn {
            Chip8View { pc: (s.pc + 2) as u16, ..s }
        } else {
            s
        },
        Instr::SkipNeImm(x, nn) => if reg(s, x) != nn {
            Chip8View { pc: (s.pc + 2) as u16, ..s }
        } else {
            s
        },
        Instr::SkipEqReg(x, y) => if reg(s, x) == reg(s, y) {
            Chip8View { pc: (s.pc + 2) as u16, ..s }
        } else {
            s
        },
        Instr::SetImm(x, nn) => Chip8View { registers: s.registers.update(x as int, nn), ..s },
        Instr::AddImm(x, nn) => Chip8View {
            registers: s.registers.update(x as int, ((reg(s, x) + nn) % 256) as u8),
            ..s
        },
        Instr::Copy(x, y) => Chip8View {
            registers: s.registers.update(x as int, reg(s, y)),
            ..s
        },
        Instr::Or(x, y) => Chip8View {
            registers: s.registers.update(x as int, reg(s, x) | reg(s, y)),
            ..s
        },
        Instr::And(x, y) => Chip8View {
            registers: s.registers.update(x as int, reg(s, x) & reg(s, y)),
            ..s
        },
        Instr::Xor(x, y) => Chip8View {
            registers: s.registers.update(x as int, reg(s, x) ^ reg(s, y)),
            ..s
        },
        Instr::AddCarry(x, y) => Chip8View {
            registers: s.registers
                .update(x as int, ((reg(s, x) + reg(s, y)) % 256) as u8)
                .update(15, if reg(s, x) + reg(s, y) >= 256 { 1u8 } else { 0u8 }),
            ..s
        },
        Instr::SubBorrow(x, y) => if reg(s, x) > reg(s, y) {
            Chip8View {
                registers: s.registers
                    .update(x as int, (reg(s, x) - reg(s, y)) as u8)
                    .update(15, 1u8),
                ..s
            }
        } else {
            Chip8View {
                registers: s.registers
                    .update(x as int, ((256 - (reg(s, y) - reg(s, x))) % 256) as u8)
                    .update(15, 0u8),
                ..s
            }
        },
        Instr::SubReverse(x, y) => if reg(s, y) > reg(s, x) {
            Chip8View {
                registers: s.registers
                    .update(x as int, (reg(s, y) - reg(s, x)) as u8)
                    .update(15, 1u8),
                ..s
            }
        } else {
            Chip8View {
                registers: s.registers
                    .update(x as int, ((256 - (reg(s, x) - reg(s, y))) % 256) as u8)
                    .update(15, 0u8),
                ..s
            }
        },
        Instr::SkipNeReg(x, y) => if reg(s, x) != reg(s, y) {
            Chip8View { pc: (s.pc + 2) as u16, ..s }
        } else {
            s
        },
        Instr::SetIndex(addr) => Chip8View { i: addr, ..s },
        Instr::Draw(x, y, n) => Chip8View {
            display: draw_display(s.memory, s.i, s.registers, s.display, x, y, n),
            registers: s.registers.update(
                15,
                if draw_collision(s.memory, s.i, s.registers, s.display, x, y, n) {
                    1u8
                } else {
                    0u8
                },
            ),
            ..s
        },
    }
}

// ---------------------------------------------------------------------------
// One full cycle: fetch, decode, advance, execute.
// ---------------------------------------------------------------------------

/// The program counter points at two readable instruction bytes.
pub open spec fn fetch_ok(s: Chip8View) -> bool {
    s.pc + 1 < MEM_SIZE
}

/// `s` with the program counter advanced past the fetched instruction.
pub open spec fn advanced(s: Chip8View) -> Chip8View {
    Chip8View { pc: (s.pc + 2) as u16, ..s }
}

/// The instruction the two bytes under the program counter denote.
pub open spec fn fetched_instr(s: Chip8View) -> Option<Instr> {
    decode(s.memory[s.pc as int], s.memory[s.pc as int + 1])
}

/// Whether one cycle from `s` succeeds.
pub open spec fn cycle_ok(s: Chip8View) -> bool {
    &&& fetch_ok(s)
    &&& fetched_instr(s) is Some
    &&& instr_ok(advanced(s), fetched_instr(s).unwrap())
}

/// The state one successful cycle reaches from `s`.
pub open spec fn cycle_step(s: Chip8View) -> Chip8View {
    instr_step(advanced(s), fetched_instr(s).unwrap())
}

/// The error a failing cycle reports, and on which states it fails: the
/// machine stops rather than misexecute.
pub open spec fn cycle_error(s: Chip8View) -> Chip8Error {
    if !fetch_ok(s) {
        Chip8Error::PcOutOfBounds
    } else if fetched_instr(s) is None {
        Chip8Error::UnknownOpcode
    } else if fetched_instr(s).unwrap() is Return {
        Chip8Error::EmptyStack
    } else {
        Chip8Error::SpriteOutOfBounds
    }
}

// ---------------------------------------------------------------------------
// Timers and the wall-clock driver.
// ---------------------------------------------------------------------------

/// One timer tick: both timers count down and floor at zero.
pub open spec fn timers_step(s: Chip8View) -> Chip8View {
    Chip8View {
        delay_timer: if s.delay_timer > 0 {
            (s.delay_timer - 1) as u8
        } else {
            0u8
        },
        sound_timer: if s.sound_timer > 0 {
            (s.sound_timer - 1) as u8
        } else {
            0u8
        },
        ..s
    }
}

/// More than `1 / rate_hz` seconds of the injected clock have passed since
/// `last`.
pub open spec fn due(last: u64, now: u64, rate_hz: u64) -> bool {
    now > last && (now - last) * rate_hz > NANOS_PER_SEC
}

/// The executor is due to run.
pub open spec fn cycle_due(s: Chip8View, now: u64) -> bool {
    due(s.last_cycle_nanos, now, CYCLE_RATE_HZ)
}

/// The timers are due to tick.
pub open spec fn timer_due(s: Chip8View, now: u64) -> bool {
    due(s.last_timer_nanos, now, TIMER_RATE_HZ)
}

/// A timed update succeeds unless it runs the executor and that fails.
pub open spec fn update_ok(s: Chip8View, now: u64) -> bool {
    cycle_due(s, now) ==> cycle_ok(s)
}

/// The state a successful timed update reaches: one cycle if due, then one
/// timer tick if due, each resetting its own timestamp; neither blocks the
/// other, and neither runs before its threshold.
pub open spec fn update_step(s: Chip8View, now: u64) -> Chip8View {
    let s1 = if cycle_due(s, now) {
        Chip8View { last_cycle_nanos: now, ..cycle_step(s) }
    } else {
        s
    };
    if timer_due(s, now) {
        Chip8View { last_timer_nanos: now, ..timers_step(s1) }
    } else {
        s1
    }
}

} // verus!
