//! The executable machine, proved against the model in
//! [`crate::semantics`].

use vstd::prelude::*;

use crate::font::default_font;
use crate::instr::Instr;
use crate::instr::decode_instr;
use crate::semantics::Chip8Error;
use crate::semantics::Chip8View;
use crate::semantics::CYCLE_RATE_HZ;
use crate::semantics::DISPLAY_SIZE;
use crate::semantics::MEM_SIZE;
use crate::semantics::NANOS_PER_SEC;
use crate::semantics::PROGRAM_START;
use crate::semantics::FONT_START;
use crate::semantics::TIMER_RATE_HZ;
use crate::semantics::advanced;
use crate::semantics::blank_display;
use crate::semantics::chosen_font;
use crate::semantics::cycle_error;
use crate::semantics::cycle_ok;
use crate::semantics::cycle_step;
use crate::semantics::draw_collision;
use crate::semantics::draw_display;
use crate::semantics::draw_mask;
use crate::semantics::draw_ok;
use crate::semantics::draw_px;
use crate::semantics::draw_py;
use crate::semantics::draw_rows;
use crate::semantics::fresh_memory;
use crate::semantics::fresh_state;
use crate::semantics::instr_step;
use crate::semantics::lemma_sprite_mask_unroll;
use crate::semantics::lemma_u8_bit_zero;
use crate::semantics::sprite_mask_byte;
use crate::semantics::timers_step;
use crate::semantics::due;
use crate::semantics::update_ok;
use crate::semantics::update_step;
use vstd::arithmetic::mul::lemma_mul_upper_bound;

verus! {

/// What a host does with a display snapshot.  The machine calls
/// [`DrawHandler::on_draw`] exactly once after every executed sprite draw,
/// with a copy of the full bitmap.
pub trait DrawHandler {
    /// Receive one display snapshot: 256 bytes, 8 pixels per byte,
    /// row-major.
    fn on_draw(&mut self, display: Vec<u8>);
}

/// What a host does when the sound timer is running.  The machine calls
/// [`BeepHandler::on_beep`] once per timer tick while the sound timer is
/// nonzero.
pub trait BeepHandler {
    /// Make a beep audible.
    fn on_beep(&mut self);
}

/// The state of one CHIP-8 machine.
pub struct Chip8 {
    memory: Vec<u8>,
    display: Vec<u8>,
    pc: u16,
    i: u16,
    stack: Vec<u16>,
    delay_timer: u8,
    sound_timer: u8,
    registers: Vec<u8>,
    last_cycle_nanos: u64,
    last_timer_nanos: u64,
}

impl View for Chip8 {
    type V = Chip8View;

    closed spec fn view(&self) -> Chip8View {
        Chip8View {
            memory: self.memory@,
            display: self.display@,
            pc: self.pc,
            i: self.i,
            stack: self.stack@,
            delay_timer: self.delay_timer,
            sound_timer: self.sound_timer,
            registers: self.registers@,
            last_cycle_nanos: self.last_cycle_nanos,
            last_timer_nanos: self.last_timer_nanos,
        }
    }
}

/// A vector of `n` zero bytes.
fn zero_bytes(n: usize) -> (r: Vec<u8>)
    ensures
        r@ == Seq::new(n as nat, |j: int| 0u8),
{
    let mut r: Vec<u8> = Vec::new();
    while r.len() < n
        invariant
            r@.len() <= n,
            forall|j: int| 0 <= j < r@.len() ==> r@[j] == 0u8,
        decreases n - r@.len(),
    {
        r.push(0u8);
    }
    proof {
        assert(r@ =~= Seq::new(n as nat, |j: int| 0u8));
    }
    r
}

/// A copy of a byte vector.
fn copied_bytes(src: &Vec<u8>) -> (r: Vec<u8>)
    ensures
        r@ == src@,
{
    let mut r: Vec<u8> = Vec::new();
    let mut k: usize = 0;
    while k < src.len()
        invariant
            k <= src@.len(),
            r@ == src@.subrange(0, k as int),
        decreases src@.len() - k,
    {
        r.push(src[k]);
        proof {
            assert(r@ =~= src@.subrange(0, k + 1 as int));
        }
        k = k + 1;
    }
    proof {
        assert(r@ =~= src@);
    }
    r
}

/// Whether more than `1 / rate_hz` seconds of the injected clock lie
/// between two readings.
fn elapsed_due(last: u64, now: u64, rate_hz: u64) -> (r: bool)
    ensures
        r == due(last, now, rate_hz),
{
    if now > last {
        let elapsed: u64 = now - last;
        proof {
            lemma_mul_upper_bound(
                elapsed as int,
                0xFFFF_FFFF_FFFF_FFFFu64 as int,
                rate_hz as int,
                0xFFFF_FFFF_FFFF_FFFFu64 as int,
            );
        }
        (elapsed as u128) * (rate_hz as u128) > NANOS_PER_SEC as u128
    } else {
        false
    }
}

impl Chip8 {
    /// Build a machine from a program image and an optional 80-byte font
    /// table.
    ///
    /// The font (the given one, or the built-in table) is loaded at
    /// `0x050`, the program at `0x200`, and everything else is zeroed; the
    /// program counter starts at `0x200`.  A program longer than the
    /// `4096 - 0x200` bytes of memory above the reserved region is
    /// rejected.
    pub fn new(program: &[u8], custom_font: Option<[u8; 80]>) -> (r: Result<Chip8, Chip8Error>)
        ensures
            r is Ok <==> program@.len() <= MEM_SIZE - PROGRAM_START,
            r matches Ok(m) ==> m@ == fresh_state(program@, chosen_font(custom_font)) && m@.wf(),
            r is Err ==> r == Err::<Chip8, Chip8Error>(Chip8Error::ProgramTooLarge),
    {
        if program.len() > MEM_SIZE - PROGRAM_START {
            return Err(Chip8Error::ProgramTooLarge);
        }
        let font: Vec<u8> = match custom_font {
            Some(f) => vstd::slice::slice_to_vec(f.as_slice()),
            None => default_font(),
        };
        let mut memory: Vec<u8> = zero_bytes(MEM_SIZE);
        let mut k: usize = 0;
        while k < 80
            invariant
                k <= 80,
                font@ == chosen_font(custom_font),
                font@.len() == 80,
                memory@.len() == MEM_SIZE,
                forall|a: int|
                    0 <= a < MEM_SIZE ==> memory@[a] == (if FONT_START <= a < FONT_START + k {
                        font@[a - FONT_START]
                    } else {
                        0u8
                    }),
            decreases 80 - k,
        {
            memory[FONT_START + k] = font[k];
            k = k + 1;
        }
        let mut j: usize = 0;
        while j < program.len()
            invariant
                j <= program@.len(),
                program@.len() <= MEM_SIZE - PROGRAM_START,
                font@ == chosen_font(custom_font),
                font@.len() == 80,
                memory@.len() == MEM_SIZE,
                forall|a: int|
                    0 <= a < MEM_SIZE ==> memory@[a] == (if FONT_START <= a < FONT_START + 80 {
                        font@[a - FONT_START]
                    } else if PROGRAM_START <= a < PROGRAM_START + j {
                        program@[a - PROGRAM_START]
                    } else {
                        0u8
                    }),
            decreases program@.len() - j,
        {
            memory[PROGRAM_START + j] = program[j];
            j = j + 1;
        }
        let m = Chip8 {
            memory,
            display: zero_bytes(DISPLAY_SIZE),
            pc: PROGRAM_START as u16,
            i: 0,
            stack: Vec::new(),
            delay_timer: 0,
            sound_timer: 0,
            registers: zero_bytes(16),
            last_cycle_nanos: 0,
            last_timer_nanos: 0,
        };
        proof {
            assert(m@.memory =~= fresh_memory(program@, chosen_font(custom_font)));
            assert(m@ =~= fresh_state(program@, chosen_font(custom_font)));
        }
        Ok(m)
    }

    /// A copy of the full 4096-byte memory image, for debugging.
    pub fn memory(&self) -> (r: Vec<u8>)
        ensures
            r@ == self@.memory,
    {
        copied_bytes(&self.memory)
    }

    /// A copy of the current display bitmap: 256 bytes, 8 pixels per byte,
    /// row-major.
    pub fn display(&self) -> (r: Vec<u8>)
        ensures
            r@ == self@.display,
    {
        copied_bytes(&self.display)
    }

    /// Execute one `Dxyn` sprite draw: XOR `n` rows read from memory at `I`
    /// into the display at the coordinates held in `Vx` and `Vy`, clip at
    /// the display edges, and set `VF` to 1 exactly when a drawn bit turns
    /// a lit pixel off.
    fn exec_draw(&mut self, x: u8, y: u8, n: u8) -> (r: Result<(), Chip8Error>)
        requires
            old(self)@.wf(),
            x < 16,
            y < 16,
        ensures
            final(self)@.wf(),
            r is Ok <==> draw_ok(old(self)@.memory, old(self)@.i, old(self)@.registers, y, n),
            r is Ok ==> final(self)@ == (Chip8View {
                display: draw_display(
                    old(self)@.memory,
                    old(self)@.i,
                    old(self)@.registers,
                    old(self)@.display,
                    x,
                    y,
                    n,
                ),
                registers: old(self)@.registers.update(
                    15,
                    if draw_collision(
                        old(self)@.memory,
                        old(self)@.i,
                        old(self)@.registers,
                        old(self)@.display,
                        x,
                        y,
                        n,
                    ) {
                        1u8
                    } else {
                        0u8
                    },
                ),
                ..old(self)@
            }),
            r is Err ==> final(self)@ == old(self)@ && r == Err::<(), Chip8Error>(
                Chip8Error::SpriteOutOfBounds,
            ),
    {
        let vx: u8 = self.registers[x as usize];
        let vy: u8 = self.registers[y as usize];
        let px: u8 = vx & 63;
        let py: u8 = vy & 31;
        proof {
            assert(vx & 63 < 64) by (bit_vector);
            assert(vy & 31 < 32) by (bit_vector);
            assert(px / 8 < 8 && px % 8 < 8) by (bit_vector)
                requires
                    px < 64,
            ;
        }
        let xb: u8 = px / 8;
        let xo: u8 = px % 8;
        let rows: u8 = if py as u16 + n as u16 <= 32 {
            n
        } else {
            32 - py
        };
        proof {
            assert(rows as int == draw_rows(py, n));
        }
        if self.i as usize + rows as usize > MEM_SIZE {
            return Err(Chip8Error::SpriteOutOfBounds);
        }
        let ghost mem0 = self@.memory;
        let ghost i0 = self@.i;
        let ghost regs0 = self@.registers;
        let ghost d0 = self@.display;
        let mut collision: bool = false;
        let mut k: usize = 0;
        proof {
            lemma_u8_bit_zero();
            assert forall|j: int| 0 <= j < 256 implies self.display@[j] == d0[j]
                ^ sprite_mask_byte(mem0, i0, px, py, 0, j) by {
                assert(sprite_mask_byte(mem0, i0, px, py, 0, j) == 0);
            }
        }
        while k < rows as usize
            invariant
                old(self)@.wf(),
                self@ == (Chip8View { display: self.display@, ..old(self)@ }),
                self.display@.len() == 256,
                mem0 == old(self)@.memory,
                i0 == old(self)@.i,
                regs0 == old(self)@.registers,
                d0 == old(self)@.display,
                px == old(self)@.registers[x as int] & 63,
                py == old(self)@.registers[y as int] & 31,
                px < 64,
                py < 32,
                xb == px / 8,
                xo == px % 8,
                py + rows <= 32,
                rows as int == draw_rows(py, n),
                i0 + rows <= MEM_SIZE,
                k <= rows,
                forall|j: int|
                    0 <= j < 256 ==> self.display@[j] == d0[j] ^ sprite_mask_byte(
                        mem0,
                        i0,
                        px,
                        py,
                        k as int,
                        j,
                    ),
                collision <==> exists|j: int|
                    0 <= j < 256 && d0[j] & #[trigger] sprite_mask_byte(
                        mem0,
                        i0,
                        px,
                        py,
                        k as int,
                        j,
                    ) != 0,
            decreases rows - k,
        {
            let row: u8 = self.memory[self.i as usize + k];
            let di: usize = ((py as usize) + k) * 8 + (xb as usize);
            proof {
                lemma_u8_bit_zero();
                lemma_sprite_mask_unroll(mem0, i0, px, py, k as int, di as int);
            }
            let cur: u8 = self.display[di];
            let m1: u8 = row >> xo;
            if cur & m1 != 0 {
                collision = true;
            }
            self.display[di] = cur ^ m1;
            let two: bool = xo != 0 && xb < 7;
            if two {
                let di2: usize = di + 1;
                let cur2: u8 = self.display[di2];
                let m2: u8 = row << (8 - xo);
                if cur2 & m2 != 0 {
                    collision = true;
                }
                self.display[di2] = cur2 ^ m2;
            }
            proof {
                let kk: int = k as int;
                assert forall|j: int| 0 <= j < 256 implies self.display@[j] == d0[j]
                    ^ sprite_mask_byte(mem0, i0, px, py, kk + 1, j) by {
                    lemma_sprite_mask_unroll(mem0, i0, px, py, kk, j);
                }
                let new_exists = exists|j: int|
                    0 <= j < 256 && d0[j] & #[trigger] sprite_mask_byte(
                        mem0,
                        i0,
                        px,
                        py,
                        kk + 1,
                        j,
                    ) != 0;
                if collision {
                    if cur & m1 != 0 {
                        assert(d0[di as int] & sprite_mask_byte(mem0, i0, px, py, kk + 1, di as int)
                            != 0);
                        assert(new_exists);
                    } else if two && (d0[di as int + 1] & sprite_mask_byte(
                        mem0,
                        i0,
                        px,
                        py,
                        kk + 1,
                        di as int + 1,
                    ) != 0) {
                        assert(new_exists);
                    } else {
                        let j0 = choose|j: int|
                            0 <= j < 256 && d0[j] & #[trigger] sprite_mask_byte(
                                mem0,
                                i0,
                                px,
                                py,
                                kk,
                                j,
                            ) != 0;
                        lemma_sprite_mask_unroll(mem0, i0, px, py, kk, j0);
                        assert(d0[j0] & sprite_mask_byte(mem0, i0, px, py, kk + 1, j0) != 0);
                        assert(new_exists);
                    }
                }
                if new_exists {
                    let j1 = choose|j: int|
                        0 <= j < 256 && d0[j] & #[trigger] sprite_mask_byte(
                            mem0,
                            i0,
                            px,
                            py,
                            kk + 1,
                            j,
                        ) != 0;
                    lemma_sprite_mask_unroll(mem0, i0, px, py, kk, j1);
                    if j1 == di as int {
                        assert(collision);
                    } else if two && j1 == di as int + 1 {
                        assert(collision);
                    } else {
                        assert(d0[j1] & sprite_mask_byte(mem0, i0, px, py, kk, j1) != 0);
                        assert(collision);
                    }
                }
            }
            k = k + 1;
        }
        let flag: u8 = if collision {
            1
        } else {
            0
        };
        self.registers[15] = flag;
        proof {
            assert(draw_px(regs0, x) == px);
            assert(draw_py(regs0, y) == py);
            assert forall|j: int| 0 <= j < 256 implies draw_mask(mem0, i0, regs0, x, y, n, j)
                == sprite_mask_byte(mem0, i0, px, py, rows as int, j) by {}
            assert(self.display@ =~= draw_display(mem0, i0, regs0, d0, x, y, n));
            if collision {
                let j0 = choose|j: int|
                    0 <= j < 256 && d0[j] & #[trigger] sprite_mask_byte(
                        mem0,
                        i0,
                        px,
                        py,
                        rows as int,
                        j,
                    ) != 0;
                assert(d0[j0] & draw_mask(mem0, i0, regs0, x, y, n, j0) != 0);
                assert(draw_collision(mem0, i0, regs0, d0, x, y, n));
            }
            if draw_collision(mem0, i0, regs0, d0, x, y, n) {
                let j1 = choose|j: int|
                    0 <= j < 256 && d0[j] & #[trigger] draw_mask(mem0, i0, regs0, x, y, n, j) != 0;
                assert(d0[j1] & sprite_mask_byte(mem0, i0, px, py, rows as int, j1) != 0);
                assert(collision);
            }
            assert(self@ =~= (Chip8View {
                display: draw_display(mem0, i0, regs0, d0, x, y, n),
                registers: regs0.update(
                    15,
                    if draw_collision(mem0, i0, regs0, d0, x, y, n) {
                        1u8
                    } else {
                        0u8
                    },
                ),
                ..old(self)@
            }));
        }
        Ok(())
    }

    /// Execute the instruction under the program counter.
    ///
    /// The two instruction bytes are fetched, the program counter advances
    /// past them, and the decoded instruction is applied — all exactly as
    /// [`cycle_step`] says.  After an executed sprite draw the draw handler
    /// receives one snapshot of the display.  On any fatal condition
    /// (program counter out of range, unknown opcode, return with an empty
    /// stack, sprite read past the end of memory) the machine is left
    /// unchanged and the matching error is returned.
    pub fn cycle<D: DrawHandler>(&mut self, draw: &mut D) -> (r: Result<(), Chip8Error>)
        requires
            old(self)@.wf(),
        ensures
            final(self)@.wf(),
            r is Ok <==> cycle_ok(old(self)@),
            r is Ok ==> final(self)@ == cycle_step(old(self)@),
            r is Err ==> final(self)@ == old(self)@ && r == Err::<(), Chip8Error>(
                cycle_error(old(self)@),
            ),
    {
        if self.pc as usize + 1 >= MEM_SIZE {
            return Err(Chip8Error::PcOutOfBounds);
        }
        let b0: u8 = self.memory[self.pc as usize];
        let b1: u8 = self.memory[self.pc as usize + 1];
        let instr: Instr = match decode_instr(b0, b1) {
            Some(ins) => ins,
            None => {
                return Err(Chip8Error::UnknownOpcode);
            },
        };
        let next_pc: u16 = self.pc + 2;
        let ghost s_adv = advanced(old(self)@);
        match instr {
            Instr::ClearScreen => {
                self.display = zero_bytes(DISPLAY_SIZE);
                self.pc = next_pc;
                proof {
                    assert(self.display@ =~= blank_display());
                }
            },
            Instr::Return => {
                if self.stack.len() == 0 {
                    return Err(Chip8Error::EmptyStack);
                }
                let a: u16 = match self.stack.pop() {
                    Some(a) => a,
                    None => {
                        return Err(Chip8Error::EmptyStack);
                    },
                };
                self.pc = a;
                proof {
                    assert(self.stack@ =~= s_adv.stack.drop_last());
                }
            },
            Instr::Jump(addr) => {
                self.pc = addr;
            },
            Instr::Call(addr) => {
                self.stack.push(next_pc);
                self.pc = addr;
            },
            Instr::SkipEqImm(x, nn) => {
                let vx: u8 = self.registers[x as usize];
                self.pc = if vx == nn {
                    next_pc + 2
                } else {
                    next_pc
                };
            },
            Instr::SkipNeImm(x, nn) => {
                let vx: u8 = self.registers[x as usize];
                self.pc = if vx != nn {
                    next_pc + 2
                } else {
                    next_pc
                };
            },
            Instr::SkipEqReg(x, y) => {
                let vx: u8 = self.registers[x as usize];
                let vy: u8 = self.registers[y as usize];
                self.pc = if vx == vy {
                    next_pc + 2
                } else {
                    next_pc
                };
            },
            Instr::SetImm(x, nn) => {
                self.registers[x as usize] = nn;
                self.pc = next_pc;
            },
            Instr::AddImm(x, nn) => {
                let vx: u8 = self.registers[x as usize];
                self.registers[x as usize] = ((vx as u16 + nn as u16) % 256) as u8;
                self.pc = next_pc;
            },
            Instr::Copy(x, y) => {
                let vy: u8 = self.registers[y as usize];
                self.registers[x as usize] = vy;
                self.pc = next_pc;
            },
            Instr::Or(x, y) => {
                let vx: u8 = self.registers[x as usize];
                let vy: u8 = self.registers[y as usize];
                self.registers[x as usize] = vx | vy;
                self.pc = next_pc;
            },
            Instr::And(x, y) => {
                let vx: u8 = self.registers[x as usize];
                let vy: u8 = self.registers[y as usize];
                self.registers[x as usize] = vx & vy;
                self.pc = next_pc;
            },
            Instr::Xor(x, y) => {
                let vx: u8 = self.registers[x as usize];
                let vy: u8 = self.registers[y as usize];
                self.registers[x as usize] = vx ^ vy;
                self.pc = next_pc;
            },
            Instr::AddCarry(x, y) => {
                let vx: u8 = self.registers[x as usize];
                let vy: u8 = self.registers[y as usize];
                let sum: u16 = vx as u16 + vy as u16;
                self.registers[x as usize] = (sum % 256) as u8;
                self.registers[15] = if sum >= 256 {
                    1
                } else {
                    0
                };
                self.pc = next_pc;
            },
            Instr::SubBorrow(x, y) => {
                let vx: u8 = self.registers[x as usize];
                let vy: u8 = self.registers[y as usize];
                if vx > vy {
                    self.registers[x as usize] = vx - vy;
                    self.registers[15] = 1;
                } else {
                    self.registers[x as usize] = ((256u16 - (vy - vx) as u16) % 256) as u8;
                    self.registers[15] = 0;
                }
                self.pc = next_pc;
            },
            Instr::SubReverse(x, y) => {
                let vx: u8 = self.registers[x as usize];
                let vy: u8 = self.registers[y as usize];
                if vy > vx {
                    self.registers[x as usize] = vy - vx;
                    self.registers[15] = 1;
                } else {
                    self.registers[x as usize] = ((256u16 - (vx - vy) as u16) % 256) as u8;
                    self.registers[15] = 0;
                }
                self.pc = next_pc;
            },
            Instr::SkipNeReg(x, y) => {
                let vx: u8 = self.registers[x as usize];
                let vy: u8 = self.registers[y as usize];
                self.pc = if vx != vy {
                    next_pc + 2
                } else {
                    next_pc
                };
            },
            Instr::SetIndex(addr) => {
                self.i = addr;
                self.pc = next_pc;
            },
            Instr::Draw(x, y, n) => {
                match self.exec_draw(x, y, n) {
                    Ok(()) => {},
                    Err(e) => {
                        return Err(e);
                    },
                }
                self.pc = next_pc;
                let snapshot: Vec<u8> = self.display();
                draw.on_draw(snapshot);
            },
        }
        proof {
            assert(self@ == instr_step(s_adv, instr));
        }
        Ok(())
    }

    /// Run the machine from wall-clock time, injected as a nanosecond
    /// reading of a monotonic clock.
    ///
    /// When more than `1/700` second has passed since the executor last
    /// ran, one [`Chip8::cycle`] runs; independently, when more than `1/60`
    /// second has passed since the timers last ticked, one
    /// [`Chip8::timers`] runs.  Below both thresholds the call changes
    /// nothing, so a host may call this as often as it likes.  A failing
    /// cycle leaves the machine unchanged and returns its error.
    pub fn update<D: DrawHandler, B: BeepHandler>(
        &mut self,
        now_nanos: u64,
        draw: &mut D,
        beep: &mut B,
    ) -> (r: Result<(), Chip8Error>)
        requires
            old(self)@.wf(),
        ensures
            final(self)@.wf(),
            r is Ok <==> update_ok(old(self)@, now_nanos),
            r is Ok ==> final(self)@ == update_step(old(self)@, now_nanos),
            r is Err ==> final(self)@ == old(self)@ && r == Err::<(), Chip8Error>(
                cycle_error(old(self)@),
            ),
    {
        if elapsed_due(self.last_cycle_nanos, now_nanos, CYCLE_RATE_HZ) {
            match self.cycle(draw) {
                Ok(()) => {},
                Err(e) => {
                    return Err(e);
                },
            }
            self.last_cycle_nanos = now_nanos;
        }
        if elapsed_due(self.last_timer_nanos, now_nanos, TIMER_RATE_HZ) {
            self.timers(beep);
            self.last_timer_nanos = now_nanos;
        }
        Ok(())
    }

    /// One timer tick: the delay timer counts down to zero; the sound timer
    /// does the same and the beep handler is called once per tick while it
    /// is nonzero.
    pub fn timers<B: BeepHandler>(&mut self, beep: &mut B)
        ensures
            final(self)@ == timers_step(old(self)@),
    {
        if self.delay_timer > 0 {
            self.delay_timer = self.delay_timer - 1;
        }
        if self.sound_timer > 0 {
            beep.on_beep();
            self.sound_timer = self.sound_timer - 1;
        }
    }
}

} // verus!
