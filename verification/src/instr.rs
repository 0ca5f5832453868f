//! Instruction decoding.
//!
//! A CHIP-8 instruction is two bytes.  Splitting them into four nibbles
//! `(o, x, y, n)` gives the opcode family `o`, two register indices `x` and
//! `y`, a sub-opcode or sprite height `n`, an 8-bit immediate `nn` (the whole
//! second byte) and a 12-bit address `addr = (x << 8) | nn`.

use vstd::prelude::*;

verus! {

/// One decoded instruction.  Register indices are always below 16 and
/// addresses below 4096 when produced by [`decode`].
#[derive(Clone, Copy, Debug, PartialEq, Eq, Structural)]
pub enum Instr {
    /// `00E0`: clear the display.
    ClearScreen,
    /// `00EE`: pop the call stack into the program counter.
    Return,
    /// `1addr`: jump.
    Jump(u16),
    /// `2addr`: push the program counter, then jump.
    Call(u16),
    /// `3xnn`: skip the next instruction if `Vx == nn`.
    SkipEqImm(u8, u8),
    /// `4xnn`: skip the next instruction if `Vx != nn`.
    SkipNeImm(u8, u8),
    /// `5xy0`: skip the next instruction if `Vx == Vy`.
    SkipEqReg(u8, u8),
    /// `6xnn`: `Vx := nn`.
    SetImm(u8, u8),
    /// `7xnn`: `Vx := Vx + nn` with 8-bit wraparound, no flag.
    AddImm(u8, u8),
    /// `8xy0`: `Vx := Vy`.
    Copy(u8, u8),
    /// `8xy1`: `Vx := Vx | Vy`.
    Or(u8, u8),
    /// `8xy2`: `Vx := Vx & Vy`.
    And(u8, u8),
    /// `8xy3`: `Vx := Vx ^ Vy`.
    Xor(u8, u8),
    /// `8xy4`: `Vx := Vx + Vy` truncated to 8 bits, `VF` := carry.
    AddCarry(u8, u8),
    /// `8xy5`: `Vx := Vx - Vy` with 8-bit wraparound, `VF := 1` iff `Vx > Vy`.
    SubBorrow(u8, u8),
    /// `8xy7`: `Vx := Vy - Vx` with 8-bit wraparound, `VF := 1` iff `Vy > Vx`.
    SubReverse(u8, u8),
    /// `9xy0`: skip the next instruction if `Vx != Vy`.
    SkipNeReg(u8, u8),
    /// `Aaddr`: `I := addr`.
    SetIndex(u16),
    /// `Dxyn`: draw an 8-pixel-wide, `n`-row sprite read from `I` at the
    /// coordinates held in `Vx` and `Vy`.
    Draw(u8, u8, u8),
}

/// Which instruction, if any, the two instruction bytes denote.
pub open spec fn decode(b0: u8, b1: u8) -> Option<Instr> {
    let o = b0 >> 4;
    let x = b0 & 0x0F;
    let y = b1 >> 4;
    let n = b1 & 0x0F;
    let addr = (((x as u16) << 8) | (b1 as u16)) as u16;
    if o == 0x0 {
        if x == 0x0 && y == 0xE && n == 0x0 {
            Some(Instr::ClearScreen)
        } else if x == 0x0 && y == 0xE && n == 0xE {
            Some(Instr::Return)
        } else {
            None
        }
    } else if o == 0x1 {
        Some(Instr::Jump(addr))
    } else if o == 0x2 {
        Some(Instr::Call(addr))
    } else if o == 0x3 {
        Some(Instr::SkipEqImm(x, b1))
    } else if o == 0x4 {
        Some(Instr::SkipNeImm(x, b1))
    } else if o == 0x5 {
        if n == 0x0 {
            Some(Instr::SkipEqReg(x, y))
        } else {
            None
        }
    } else if o == 0x6 {
        Some(Instr::SetImm(x, b1))
    } else if o == 0x7 {
        Some(Instr::AddImm(x, b1))
    } else if o == 0x8 {
        if n == 0x0 {
            Some(Instr::Copy(x, y))
        } else if n == 0x1 {
            Some(Instr::Or(x, y))
        } else if n == 0x2 {
            Some(Instr::And(x, y))
        } else if n == 0x3 {
            Some(Instr::Xor(x, y))
        } else if n == 0x4 {
            Some(Instr::AddCarry(x, y))
        } else if n == 0x5 {
            Some(Instr::SubBorrow(x, y))
        } else if n == 0x7 {
            Some(Instr::SubReverse(x, y))
        } else {
            None
        }
    } else if o == 0x9 {
        if n == 0x0 {
            Some(Instr::SkipNeReg(x, y))
        } else {
            None
        }
    } else if o == 0xA {
        Some(Instr::SetIndex(addr))
    } else if o == 0xD {
        Some(Instr::Draw(x, y, n))
    } else {
        None
    }
}

/// All register indices of a decoded instruction are below 16, sprite
/// heights below 16, and addresses below 4096.
pub open spec fn instr_wf(instr: Instr) -> bool {
    match instr {
        Instr::ClearScreen => true,
        Instr::Return => true,
        Instr::Jump(addr) => addr < 4096,
        Instr::Call(addr) => addr < 4096,
        Instr::SkipEqImm(x, _nn) => x < 16,
        Instr::SkipNeImm(x, _nn) => x < 16,
        Instr::SkipEqReg(x, y) => x < 16 && y < 16,
        Instr::SetImm(x, _nn) => x < 16,
        Instr::AddImm(x, _nn) => x < 16,
        Instr::Copy(x, y) => x < 16 && y < 16,
        Instr::Or(x, y) => x < 16 && y < 16,
        Instr::And(x, y) => x < 16 && y < 16,
        Instr::Xor(x, y) => x < 16 && y < 16,
        Instr::AddCarry(x, y) => x < 16 && y < 16,
        Instr::SubBorrow(x, y) => x < 16 && y < 16,
        Instr::SubReverse(x, y) => x < 16 && y < 16,
        Instr::SkipNeReg(x, y) => x < 16 && y < 16,
        Instr::SetIndex(addr) => addr < 4096,
        Instr::Draw(x, y, n) => x < 16 && y < 16 && n < 16,
    }
}

/// Whatever [`decode`] accepts is well-formed.
pub proof fn lemma_decode_wf(b0: u8, b1: u8)
    ensures
        decode(b0, b1) is Some ==> instr_wf(decode(b0, b1).unwrap()),
{
    assert(b0 & 0x0F < 16) by (bit_vector);
    assert(b1 >> 4 < 16) by (bit_vector);
    assert(b1 & 0x0F < 16) by (bit_vector);
    assert((((b0 & 0x0F) as u16) << 8) | (b1 as u16) < 4096) by (bit_vector);
}

/// Executable decoder; agrees with the specification [`decode`].
pub fn decode_instr(b0: u8, b1: u8) -> (r: Option<Instr>)
    ensures
        r == decode(b0, b1),
        r is Some ==> instr_wf(r.unwrap()),
{
    proof {
        lemma_decode_wf(b0, b1);
    }
    let o: u8 = b0 >> 4;
    let x: u8 = b0 & 0x0F;
    let y: u8 = b1 >> 4;
    let n: u8 = b1 & 0x0F;
    let addr: u16 = ((x as u16) << 8) | (b1 as u16);
    match o {
        0x0 => {
            if x == 0x0 && y == 0xE && n == 0x0 {
                Some(Instr::ClearScreen)
            } else if x == 0x0 && y == 0xE && n == 0xE {
                Some(Instr::Return)
            } else {
                None
            }
        },
        0x1 => Some(Instr::Jump(addr)),
        0x2 => Some(Instr::Call(addr)),
        0x3 => Some(Instr::SkipEqImm(x, b1)),
        0x4 => Some(Instr::SkipNeImm(x, b1)),
        0x5 => if n == 0x0 {
            Some(Instr::SkipEqReg(x, y))
        } else {
            None
        },
        0x6 => Some(Instr::SetImm(x, b1)),
        0x7 => Some(Instr::AddImm(x, b1)),
        0x8 => match n {
            0x0 => Some(Instr::Copy(x, y)),
            0x1 => Some(Instr::Or(x, y)),
            0x2 => Some(Instr::And(x, y)),
            0x3 => Some(Instr::Xor(x, y)),
            0x4 => Some(Instr::AddCarry(x, y)),
            0x5 => Some(Instr::SubBorrow(x, y)),
            0x7 => Some(Instr::SubReverse(x, y)),
            _ => None,
        },
        0x9 => if n == 0x0 {
            Some(Instr::SkipNeReg(x, y))
        } else {
            None
        },
        0xA => Some(Instr::SetIndex(addr)),
        0xD => Some(Instr::Draw(x, y, n)),
        _ => None,
    }
}

} // verus!
