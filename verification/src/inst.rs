//! The instruction set: the decoded operations, the control-flow effects
//! they produce, the errors a cycle can raise, and the decoder that maps a
//! 16-bit instruction word to exactly one operation or one error.

use vstd::prelude::*;

verus! {

/// What a cycle can fail with. Every fatal condition surfaces as one of
/// these; none is swallowed.
#[derive(Clone, Copy, Debug, PartialEq, Eq)]
pub enum Chip8Error {
    /// The instruction word matches no defined operation. Carries the word
    /// and the program counter it was fetched from.
    DecodeFailure { opcode: u16, pc: u16 },
    /// The legacy "call native routine" operation: a recognized instruction
    /// that a hosted interpreter cannot execute.
    UnsupportedHostOperation { opcode: u16, pc: u16 },
    /// A return was executed with no saved return address.
    StackUnderflow,
    /// A call was executed with all sixteen stack slots in use.
    StackOverflow,
    /// A computed memory address falls outside the 4096 addressable bytes.
    /// Out-of-range accesses are treated as fatal, uniformly, rather than
    /// wrapping into low memory.
    OutOfBoundsAddress,
}

/// The control-flow effect of one executed operation.
#[derive(Clone, Copy, Debug, PartialEq, Eq)]
pub enum Flow {
    /// Re-fetch the same instruction next cycle; produced only by the
    /// key-wait operation when no key is held.
    Halt,
    /// Proceed to the next instruction.
    Next,
    /// Skip over the next instruction.
    Skip,
    /// Transfer control to an absolute address.
    Jump(u16),
}

/// A decoded operation with its operands: `x` and `y` name registers, `kk`
/// is an 8-bit immediate, `nnn` a 12-bit address, `n` a 4-bit immediate.
#[derive(Clone, Copy, Debug, PartialEq, Eq)]
pub enum Inst {
    /// 00E0: clear the display.
    Op00E0,
    /// 00EE: return from a subroutine.
    Op00EE,
    /// 1NNN: jump to nnn.
    Op1NNN(u16),
    /// 2NNN: call the subroutine at nnn.
    Op2NNN(u16),
    /// 3XKK: skip the next instruction if Vx == kk.
    Op3XKK(usize, u8),
    /// 4XKK: skip the next instruction if Vx != kk.
    Op4XKK(usize, u8),
    /// 5XY0: skip the next instruction if Vx == Vy.
    Op5XY0(usize, usize),
    /// 6XKK: Vx := kk.
    Op6XKK(usize, u8),
    /// 7XKK: Vx := Vx + kk, wrapping; the flag is not touched.
    Op7XKK(usize, u8),
    /// 8XY0: Vx := Vy.
    Op8XY0(usize, usize),
    /// 8XY1: Vx := Vx | Vy.
    Op8XY1(usize, usize),
    /// 8XY2: Vx := Vx & Vy.
    Op8XY2(usize, usize),
    /// 8XY3: Vx := Vx ^ Vy.
    Op8XY3(usize, usize),
    /// 8XY4: Vx := Vx + Vy; the flag becomes 1 on carry, else 0.
    Op8XY4(usize, usize),
    /// 8XY5: Vx := Vx - Vy; the flag becomes 1 when there is no borrow
    /// (Vx >= Vy), else 0.
    Op8XY5(usize, usize),
    /// 8XY6: the flag takes Vx's lowest bit, then Vx is shifted right once.
    Op8XY6(usize, usize),
    /// 8XY7: Vx := Vy - Vx; the flag becomes 1 when there is no borrow
    /// (Vy >= Vx), else 0.
    Op8XY7(usize, usize),
    /// 8XYE: the flag takes Vx's highest bit, then Vx is shifted left once.
    Op8XYE(usize, usize),
    /// 9XY0: skip the next instruction if Vx != Vy.
    Op9XY0(usize, usize),
    /// ANNN: I := nnn.
    OpANNN(u16),
    /// BNNN: jump to V0 + nnn.
    OpBNNN(u16),
    /// CXKK: Vx := random byte AND kk.
    OpCXKK(usize, u8),
    /// DXYN: draw the n-row sprite at memory address I at (Vx, Vy); the
    /// flag becomes 1 when a set pixel is cleared, else 0.
    OpDXYN(usize, usize, u16),
    /// EX9E: skip the next instruction if the key named by Vx is held.
    OpEX9E(usize),
    /// EXA1: skip the next instruction if the key named by Vx is not held.
    OpEXA1(usize),
    /// FX07: Vx := delay timer.
    OpFX07(usize),
    /// FX0A: wait for a key; stores the lowest held key index in Vx, or
    /// retries the instruction next cycle if no key is held.
    OpFX0A(usize),
    /// FX15: delay timer := Vx.
    OpFX15(usize),
    /// FX18: sound timer := Vx.
    OpFX18(usize),
    /// FX1E: I := I + Vx, wrapping.
    OpFX1E(usize),
    /// FX29: I := address of the font glyph for the digit Vx.
    OpFX29(usize),
    /// FX33: store the decimal digits of Vx at I, I+1, I+2.
    OpFX33(usize),
    /// FX55: store registers V0..=Vx at I; I moves past the written block.
    OpFX55(usize),
    /// FX65: load registers V0..=Vx from I; I moves past the read block.
    OpFX65(usize),
}

impl Inst {
    /// Every operand is in range: register indices below 16, addresses
    /// below 4096, draw heights below 16. The decoder only produces such
    /// operations.
    pub open spec fn wf(self) -> bool {
        match self {
            Inst::Op00E0 => true,
            Inst::Op00EE => true,
            Inst::Op1NNN(nnn) => nnn < 0x1000,
            Inst::Op2NNN(nnn) => nnn < 0x1000,
            Inst::Op3XKK(x, _) => x < 16,
            Inst::Op4XKK(x, _) => x < 16,
            Inst::Op5XY0(x, y) => x < 16 && y < 16,
            Inst::Op6XKK(x, _) => x < 16,
            Inst::Op7XKK(x, _) => x < 16,
            Inst::Op8XY0(x, y) => x < 16 && y < 16,
            Inst::Op8XY1(x, y) => x < 16 && y < 16,
            Inst::Op8XY2(x, y) => x < 16 && y < 16,
            Inst::Op8XY3(x, y) => x < 16 && y < 16,
            Inst::Op8XY4(x, y) => x < 16 && y < 16,
            Inst::Op8XY5(x, y) => x < 16 && y < 16,
            Inst::Op8XY6(x, y) => x < 16 && y < 16,
            Inst::Op8XY7(x, y) => x < 16 && y < 16,
            Inst::Op8XYE(x, y) => x < 16 && y < 16,
            Inst::Op9XY0(x, y) => x < 16 && y < 16,
            Inst::OpANNN(nnn) => nnn < 0x1000,
            Inst::OpBNNN(nnn) => nnn < 0x1000,
            Inst::OpCXKK(x, _) => x < 16,
            Inst::OpDXYN(x, y, n) => x < 16 && y < 16 && n < 16,
            Inst::OpEX9E(x) => x < 16,
            Inst::OpEXA1(x) => x < 16,
            Inst::OpFX07(x) => x < 16,
            Inst::OpFX0A(x) => x < 16,
            Inst::OpFX15(x) => x < 16,
            Inst::OpFX18(x) => x < 16,
            Inst::OpFX1E(x) => x < 16,
            Inst::OpFX29(x) => x < 16,
            Inst::OpFX33(x) => x < 16,
            Inst::OpFX55(x) => x < 16,
            Inst::OpFX65(x) => x < 16,
        }
    }
}

/// What the decoder produces for each instruction word: the operation the
/// word's nibble pattern selects, a decode failure where the pattern
/// matches no operation, or the distinct error for the legacy native-call
/// family. `pc` is the address the word was fetched from; it only flows
/// into the errors.
pub open spec fn spec_decode(opcode: u16, pc: u16) -> Result<Inst, Chip8Error> {
    let family = opcode / 0x1000;
    let x = ((opcode / 0x100) % 0x10) as usize;
    let y = ((opcode / 0x10) % 0x10) as usize;
    let n = opcode % 0x10;
    let kk = (opcode % 0x100) as u8;
    let nnn = opcode % 0x1000;
    if family == 0x0 {
        if opcode == 0x00E0 {
            Ok(Inst::Op00E0)
        } else if opcode == 0x00EE {
            Ok(Inst::Op00EE)
        } else {
            Err(Chip8Error::UnsupportedHostOperation { opcode, pc })
        }
    } else if family == 0x1 {
        Ok(Inst::Op1NNN(nnn))
    } else if family == 0x2 {
        Ok(Inst::Op2NNN(nnn))
    } else if family == 0x3 {
        Ok(Inst::Op3XKK(x, kk))
    } else if family == 0x4 {
        Ok(Inst::Op4XKK(x, kk))
    } else if family == 0x5 {
        if n == 0x0 {
            Ok(Inst::Op5XY0(x, y))
        } else {
            Err(Chip8Error::DecodeFailure { opcode, pc })
        }
    } else if family == 0x6 {
        Ok(Inst::Op6XKK(x, kk))
    } else if family == 0x7 {
        Ok(Inst::Op7XKK(x, kk))
    } else if family == 0x8 {
        if n == 0x0 {
            Ok(Inst::Op8XY0(x, y))
        } else if n == 0x1 {
            Ok(Inst::Op8XY1(x, y))
        } else if n == 0x2 {
            Ok(Inst::Op8XY2(x, y))
        } else if n == 0x3 {
            Ok(Inst::Op8XY3(x, y))
        } else if n == 0x4 {
            Ok(Inst::Op8XY4(x, y))
        } else if n == 0x5 {
            Ok(Inst::Op8XY5(x, y))
        } else if n == 0x6 {
            Ok(Inst::Op8XY6(x, y))
        } else if n == 0x7 {
            Ok(Inst::Op8XY7(x, y))
        } else if n == 0xE {
            Ok(Inst::Op8XYE(x, y))
        } else {
            Err(Chip8Error::DecodeFailure { opcode, pc })
        }
    } else if family == 0x9 {
        if n == 0x0 {
            Ok(Inst::Op9XY0(x, y))
        } else {
            Err(Chip8Error::DecodeFailure { opcode, pc })
        }
    } else if family == 0xA {
        Ok(Inst::OpANNN(nnn))
    } else if family == 0xB {
        Ok(Inst::OpBNNN(nnn))
    } else if family == 0xC {
        Ok(Inst::OpCXKK(x, kk))
    } else if family == 0xD {
        Ok(Inst::OpDXYN(x, y, n))
    } else if family == 0xE {
        if kk == 0x9E {
            Ok(Inst::OpEX9E(x))
        } else if kk == 0xA1 {
            Ok(Inst::OpEXA1(x))
        } else {
            Err(Chip8Error::DecodeFailure { opcode, pc })
        }
    } else {
        if kk == 0x07 {
            Ok(Inst::OpFX07(x))
        } else if kk == 0x0A {
            Ok(Inst::OpFX0A(x))
        } else if kk == 0x15 {
            Ok(Inst::OpFX15(x))
        } else if kk == 0x18 {
            Ok(Inst::OpFX18(x))
        } else if kk == 0x1E {
            Ok(Inst::OpFX1E(x))
        } else if kk == 0x29 {
            Ok(Inst::OpFX29(x))
        } else if kk == 0x33 {
            Ok(Inst::OpFX33(x))
        } else if kk == 0x55 {
            Ok(Inst::OpFX55(x))
        } else if kk == 0x65 {
            Ok(Inst::OpFX65(x))
        } else {
            Err(Chip8Error::DecodeFailure { opcode, pc })
        }
    }
}

impl Inst {
    /// Decode one instruction word. Every word yields exactly one
    /// operation or one error; an unrecognized nibble pattern is an
    /// explicit decode failure carrying the word and the program counter,
    /// and the legacy native-call family is rejected with its own error so
    /// that a corrupt program can be told apart from one that needs a
    /// feature this host does not provide.
    pub fn decode(opcode: u16, pc: u16) -> (r: Result<Inst, Chip8Error>)
        ensures
            r == spec_decode(opcode, pc),
            r matches Ok(inst) ==> inst.wf(),
    {
        let family = opcode / 0x1000;
        let x = ((opcode / 0x100) % 0x10) as usize;
        let y = ((opcode / 0x10) % 0x10) as usize;
        let n = opcode % 0x10;
        let kk = (opcode % 0x100) as u8;
        let nnn = opcode % 0x1000;
        if family == 0x0 {
            if opcode == 0x00E0 {
                Ok(Inst::Op00E0)
            } else if opcode == 0x00EE {
                Ok(Inst::Op00EE)
            } else {
                Err(Chip8Error::UnsupportedHostOperation { opcode, pc })
            }
        } else if family == 0x1 {
            Ok(Inst::Op1NNN(nnn))
        } else if family == 0x2 {
            Ok(Inst::Op2NNN(nnn))
        } else if family == 0x3 {
            Ok(Inst::Op3XKK(x, kk))
        } else if family == 0x4 {
            Ok(Inst::Op4XKK(x, kk))
        } else if family == 0x5 {
            if n == 0x0 {
                Ok(Inst::Op5XY0(x, y))
            } else {
                Err(Chip8Error::DecodeFailure { opcode, pc })
            }
        } else if family == 0x6 {
            Ok(Inst::Op6XKK(x, kk))
        } else if family == 0x7 {
            Ok(Inst::Op7XKK(x, kk))
        } else if family == 0x8 {
            if n == 0x0 {
                Ok(Inst::Op8XY0(x, y))
            } else if n == 0x1 {
                Ok(Inst::Op8XY1(x, y))
            } else if n == 0x2 {
                Ok(Inst::Op8XY2(x, y))
            } else if n == 0x3 {
                Ok(Inst::Op8XY3(x, y))
            } else if n == 0x4 {
                Ok(Inst::Op8XY4(x, y))
            } else if n == 0x5 {
                Ok(Inst::Op8XY5(x, y))
            } else if n == 0x6 {
                Ok(Inst::Op8XY6(x, y))
            } else if n == 0x7 {
                Ok(Inst::Op8XY7(x, y))
            } else if n == 0xE {
                Ok(Inst::Op8XYE(x, y))
            } else {
                Err(Chip8Error::DecodeFailure { opcode, pc })
            }
        } else if family == 0x9 {
            if n == 0x0 {
                Ok(Inst::Op9XY0(x, y))
            } else {
                Err(Chip8Error::DecodeFailure { opcode, pc })
            }
        } else if family == 0xA {
            Ok(Inst::OpANNN(nnn))
        } else if family == 0xB {
            Ok(Inst::OpBNNN(nnn))
        } else if family == 0xC {
            Ok(Inst::OpCXKK(x, kk))
        } else if family == 0xD {
            Ok(Inst::OpDXYN(x, y, n))
        } else if family == 0xE {
            if kk == 0x9E {
                Ok(Inst::OpEX9E(x))
            } else if kk == 0xA1 {
                Ok(Inst::OpEXA1(x))
            } else {
                Err(Chip8Error::DecodeFailure { opcode, pc })
            }
        } else {
            if kk == 0x07 {
                Ok(Inst::OpFX07(x))
            } else if kk == 0x0A {
                Ok(Inst::OpFX0A(x))
            } else if kk == 0x15 {
                Ok(Inst::OpFX15(x))
            } else if kk == 0x18 {
                Ok(Inst::OpFX18(x))
            } else if kk == 0x1E {
                Ok(Inst::OpFX1E(x))
            } else if kk == 0x29 {
                Ok(Inst::OpFX29(x))
            } else if kk == 0x33 {
                Ok(Inst::OpFX33(x))
            } else if kk == 0x55 {
                Ok(Inst::OpFX55(x))
            } else if kk == 0x65 {
                Ok(Inst::OpFX65(x))
            } else {
                Err(Chip8Error::DecodeFailure { opcode, pc })
            }
        }
    }
}

} // verus!
