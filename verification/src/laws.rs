//! General properties of the machine, proved once and for all inputs.

use vstd::prelude::*;

use crate::instr::Instr;
use crate::semantics::Chip8View;
use crate::semantics::DISPLAY_SIZE;
use crate::semantics::advanced;
use crate::semantics::draw_mask;
use crate::semantics::instr_ok;
use crate::semantics::instr_step;
use crate::semantics::lemma_u8_xor_twice;
use crate::semantics::reg;
use crate::semantics::timer_due;
use crate::semantics::cycle_due;
use crate::semantics::update_step;

verus! {

/// `8xy4` adds with carry: for every pair of register values `a` and `b`,
/// the destination receives `(a + b) % 256` and `VF` becomes 1 exactly
/// when the true sum reaches 256.  (With `x = 0xF` the destination is the
/// flag register itself and the carry overwrites the sum.)
pub proof fn lemma_add_with_carry(s: Chip8View, x: u8, y: u8)
    requires
        s.wf(),
        x < 16,
        y < 16,
        x != 15,
    ensures
        ({
            let a = reg(s, x);
            let b = reg(s, y);
            let t = instr_step(s, Instr::AddCarry(x, y));
            &&& t.registers[x as int] == (a + b) % 256
            &&& t.registers[15] == (if a + b >= 256 {
                1u8
            } else {
                0u8
            })
        }),
{
}

/// `8xy5` subtracts with borrow flag: when `Vx > Vy` the destination
/// receives the difference and `VF` becomes 1; otherwise the difference
/// wraps modulo 256 and `VF` becomes 0.  (With `x = 0xF` the flag
/// overwrites the difference.)
pub proof fn lemma_sub_with_borrow(s: Chip8View, x: u8, y: u8)
    requires
        s.wf(),
        x < 16,
        y < 16,
        x != 15,
    ensures
        ({
            let a = reg(s, x);
            let b = reg(s, y);
            let t = instr_step(s, Instr::SubBorrow(x, y));
            &&& a > b ==> t.registers[x as int] == a - b && t.registers[15] == 1
            &&& a <= b ==> t.registers[x as int] == (256 - (b - a)) % 256 && t.registers[15] == 0
        }),
{
}

/// Clearing the screen leaves an all-zero bitmap of the full display size,
/// whatever was shown before.
pub proof fn lemma_clear_screen(s: Chip8View)
    requires
        s.wf(),
    ensures
        instr_step(s, Instr::ClearScreen).display.len() == DISPLAY_SIZE,
        forall|j: int|
            0 <= j < DISPLAY_SIZE ==> instr_step(s, Instr::ClearScreen).display[j] == 0u8,
{
}

/// A call followed by a return resumes right after the call: the program
/// counter ends two past where it stood before the call, and the call
/// stack is as it was.
pub proof fn lemma_call_then_return(s: Chip8View, addr: u16)
    requires
        s.wf(),
        s.pc + 2 <= 0xFFFF,
    ensures
        ({
            let after_call = instr_step(advanced(s), Instr::Call(addr));
            let after_ret = instr_step(advanced(after_call), Instr::Return);
            &&& instr_ok(advanced(after_call), Instr::Return)
            &&& after_ret.pc == s.pc + 2
            &&& after_ret.stack == s.stack
        }),
{
    let pushed = s.stack.push((s.pc + 2) as u16);
    assert(pushed.drop_last() =~= s.stack);
}

/// Drawing the same sprite twice at the same position restores the
/// display exactly (XOR is its own inverse), and the second draw reports a
/// collision precisely when the first draw turned some pixel on.
pub proof fn lemma_draw_twice_restores(s: Chip8View, x: u8, y: u8, n: u8)
    requires
        s.wf(),
        x < 16,
        y < 16,
        x != 15,
        y != 15,
    ensures
        ({
            let s1 = instr_step(s, Instr::Draw(x, y, n));
            let s2 = instr_step(s1, Instr::Draw(x, y, n));
            &&& s2.display == s.display
            &&& (s2.registers[15] == 1 <==> exists|j: int|
                0 <= j < DISPLAY_SIZE && #[trigger] (s1.display[j] & !s.display[j]) != 0)
        }),
{
    lemma_u8_xor_twice();
    let s1 = instr_step(s, Instr::Draw(x, y, n));
    let s2 = instr_step(s1, Instr::Draw(x, y, n));
    assert forall|j: int| 0 <= j < DISPLAY_SIZE implies draw_mask(
        s.memory,
        s.i,
        s1.registers,
        x,
        y,
        n,
        j,
    ) == draw_mask(s.memory, s.i, s.registers, x, y, n, j) by {
        assert(s1.registers[x as int] == s.registers[x as int]);
        assert(s1.registers[y as int] == s.registers[y as int]);
    }
    assert forall|j: int| 0 <= j < DISPLAY_SIZE implies s2.display[j] == s.display[j] by {
        let m = draw_mask(s.memory, s.i, s.registers, x, y, n, j);
        assert(s2.display[j] == (s.display[j] ^ m) ^ m);
    }
    assert(s2.display =~= s.display);
    assert forall|j: int| 0 <= j < DISPLAY_SIZE implies #[trigger] (s1.display[j] & draw_mask(
        s.memory,
        s.i,
        s1.registers,
        x,
        y,
        n,
        j,
    )) == (s1.display[j] & !s.display[j]) by {
        let m = draw_mask(s.memory, s.i, s.registers, x, y, n, j);
        assert(s1.display[j] == s.display[j] ^ m);
        assert((s.display[j] ^ m) & m == (s.display[j] ^ m) & !s.display[j]);
    }
    if s2.registers[15] == 1 {
        let j0 = choose|j: int|
            0 <= j < DISPLAY_SIZE && s1.display[j] & #[trigger] draw_mask(
                s.memory,
                s.i,
                s1.registers,
                x,
                y,
                n,
                j,
            ) != 0;
        assert(s1.display[j0] & !s.display[j0] != 0);
    }
    if exists|j: int| 0 <= j < DISPLAY_SIZE && #[trigger] (s1.display[j] & !s.display[j]) != 0 {
        let j1 = choose|j: int|
            0 <= j < DISPLAY_SIZE && #[trigger] (s1.display[j] & !s.display[j]) != 0;
        assert(s1.display[j1] & draw_mask(s.memory, s.i, s1.registers, x, y, n, j1) != 0);
    }
}

/// A timed update below both rate thresholds mutates nothing: calling
/// [`crate::Chip8::update`] again less than `1/700` second after the last
/// executor run and less than `1/60` second after the last timer tick
/// leaves the machine exactly as it was.
pub proof fn lemma_update_below_thresholds(s: Chip8View, now: u64)
    requires
        !cycle_due(s, now),
        !timer_due(s, now),
    ensures
        update_step(s, now) == s,
{
}

} // verus!
