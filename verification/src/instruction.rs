use vstd::prelude::*;

verus! {

/// One decoded CHIP-8 instruction. Register operands are nibbles (`0..=0xF`),
/// addresses are the low twelve bits of the opcode.
#[derive(PartialEq, Eq, Structural, Debug, Clone, Copy)]
pub enum Instruction {
    /// `0nnn`: machine-code routine (ignored by this interpreter).
    SYS(u16),
    /// `00E0`: clear the display.
    CLS,
    /// `00EE`: return from a subroutine.
    RET,
    /// `1nnn`: jump to `nnn`.
    JP(u16),
    /// `2nnn`: call the subroutine at `nnn`.
    CALL(u16),
    /// `3xkk`: skip the next instruction if `Vx == kk`.
    SEByte(u8, u8),
    /// `4xkk`: skip the next instruction if `Vx != kk`.
    SNEByte(u8, u8),
    /// `5xy0`: skip the next instruction if `Vx == Vy`.
    SEReg(u8, u8),
    /// `6xkk`: `Vx = kk`.
    LDByte(u8, u8),
    /// `7xkk`: `Vx = Vx + kk` (wrapping, VF untouched).
    ADDByte(u8, u8),
    /// `8xy0`: `Vx = Vy`.
    LDReg(u8, u8),
    /// `8xy1`: `Vx = Vx | Vy`.
    OR(u8, u8),
    /// `8xy2`: `Vx = Vx & Vy`.
    AND(u8, u8),
    /// `8xy3`: `Vx = Vx ^ Vy`.
    XOR(u8, u8),
    /// `8xy4`: `Vx = Vx + Vy`, then `VF` = carry (the flag wins when `x` is `F`).
    ADDReg(u8, u8),
    /// `8xy5`: `Vx = Vx - Vy`, then `VF` = not borrow (the flag wins when `x` is `F`).
    SUBReg(u8, u8),
    /// `8xy6`: `VF` = least significant bit of `Vx`, then `Vx = Vx >> 1`.
    SHR(u8, u8),
    /// `8xy7`: `Vx = Vy - Vx`, then `VF` = not borrow (the flag wins when `x` is `F`).
    SUBN(u8, u8),
    /// `8xyE`: `VF` = most significant bit of `Vx`, then `Vx = Vx << 1`.
    SHL(u8, u8),
    /// `9xy0`: skip the next instruction if `Vx != Vy`.
    SNEReg(u8, u8),
    /// `Annn`: `I = nnn`.
    LDI(u16),
    /// `Bnnn`: jump to `nnn + V0`.
    JPV0(u16),
    /// `Cxkk`: `Vx` = random byte `& kk`.
    RND(u8, u8),
    /// `Dxyn`: draw an `n`-byte sprite from memory at `I` at `(Vx, Vy)`, `VF` = collision.
    DRW(u8, u8, u8),
    /// `Ex9E`: skip the next instruction if the key numbered `Vx` is down.
    SKP(u8),
    /// `ExA1`: skip the next instruction if the key numbered `Vx` is up.
    SKNP(u8),
    /// `Fx07`: `Vx` = delay timer.
    LDVxDT(u8),
    /// `Fx0A`: wait for a key press and store its number in `Vx`.
    LDVxK(u8),
    /// `Fx15`: delay timer = `Vx`.
    LDDTVx(u8),
    /// `Fx18`: sound timer = `Vx`.
    LDSTVx(u8),
    /// `Fx1E`: `I = I + Vx`.
    ADDI(u8),
    /// `Fx29`: `I` = address of the font sprite for the digit `Vx`.
    LDF(u8),
    /// `Fx33`: store the decimal digits of `Vx` at `I`, `I + 1`, `I + 2`.
    LDB(u8),
    /// `Fx55`: store `V0..=Vx` in memory starting at `I`.
    LDStore(u8),
    /// `Fx65`: read `V0..=Vx` from memory starting at `I`.
    LDLoad(u8),
    /// Any opcode that names no instruction.
    Unknown(u16),
}

/// Bits 12..16 of an opcode: the instruction group.
pub open spec fn op_group(op: u16) -> u8 {
    (op / 0x1000) as u8
}

/// Bits 8..12 of an opcode: the `x` register operand.
pub open spec fn op_x(op: u16) -> u8 {
    (op / 0x100 % 0x10) as u8
}

/// Bits 4..8 of an opcode: the `y` register operand.
pub open spec fn op_y(op: u16) -> u8 {
    (op / 0x10 % 0x10) as u8
}

/// Bits 0..4 of an opcode.
pub open spec fn op_n(op: u16) -> u8 {
    (op % 0x10) as u8
}

/// Bits 0..12 of an opcode: an address.
pub open spec fn op_addr(op: u16) -> u16 {
    (op % 0x1000) as u16
}

/// Bits 0..8 of an opcode: an immediate byte.
pub open spec fn op_byte(op: u16) -> u8 {
    (op % 0x100) as u8
}

/// The instruction that the opcode `op` stands for.
pub open spec fn decode_spec(op: u16) -> Instruction {
    let g = op_group(op);
    let x = op_x(op);
    let y = op_y(op);
    let n = op_n(op);
    let nnn = op_addr(op);
    let kk = op_byte(op);
    if g == 0x0 {
        if x == 0 && y == 0xE && n == 0x0 {
            Instruction::CLS
        } else if x == 0 && y == 0xE && n == 0xE {
            Instruction::RET
        } else {
            Instruction::SYS(nnn)
        }
    } else if g == 0x1 {
        Instruction::JP(nnn)
    } else if g == 0x2 {
        Instruction::CALL(nnn)
    } else if g == 0x3 {
        Instruction::SEByte(x, kk)
    } else if g == 0x4 {
        Instruction::SNEByte(x, kk)
    } else if g == 0x5 {
        if n == 0x0 { Instruction::SEReg(x, y) } else { Instruction::Unknown(op) }
    } else if g == 0x6 {
        Instruction::LDByte(x, kk)
    } else if g == 0x7 {
        Instruction::ADDByte(x, kk)
    } else if g == 0x8 {
        if n == 0x0 {
            Instruction::LDReg(x, y)
        } else if n == 0x1 {
            Instruction::OR(x, y)
        } else if n == 0x2 {
            Instruction::AND(x, y)
        } else if n == 0x3 {
            Instruction::XOR(x, y)
        } else if n == 0x4 {
            Instruction::ADDReg(x, y)
        } else if n == 0x5 {
            Instruction::SUBReg(x, y)
        } else if n == 0x6 {
            Instruction::SHR(x, y)
        } else if n == 0x7 {
            Instruction::SUBN(x, y)
        } else if n == 0xE {
            Instruction::SHL(x, y)
        } else {
            Instruction::Unknown(op)
        }
    } else if g == 0x9 {
        if n == 0x0 { Instruction::SNEReg(x, y) } else { Instruction::Unknown(op) }
    } else if g == 0xA {
        Instruction::LDI(nnn)
    } else if g == 0xB {
        Instruction::JPV0(nnn)
    } else if g == 0xC {
        Instruction::RND(x, kk)
    } else if g == 0xD {
        Instruction::DRW(x, y, n)
    } else if g == 0xE {
        if y == 0x9 && n == 0xE {
            Instruction::SKP(x)
        } else if y == 0xA && n == 0x1 {
            Instruction::SKNP(x)
        } else {
            Instruction::Unknown(op)
        }
    } else {
        if y == 0x0 && n == 0x7 {
            Instruction::LDVxDT(x)
        } else if y == 0x0 && n == 0xA {
            Instruction::LDVxK(x)
        } else if y == 0x1 && n == 0x5 {
            Instruction::LDDTVx(x)
        } else if y == 0x1 && n == 0x8 {
            Instruction::LDSTVx(x)
        } else if y == 0x1 && n == 0xE {
            Instruction::ADDI(x)
        } else if y == 0x2 && n == 0x9 {
            Instruction::LDF(x)
        } else if y == 0x3 && n == 0x3 {
            Instruction::LDB(x)
        } else if y == 0x5 && n == 0x5 {
            Instruction::LDStore(x)
        } else if y == 0x6 && n == 0x5 {
            Instruction::LDLoad(x)
        } else {
            Instruction::Unknown(op)
        }
    }
}

impl Instruction {
    /// Register and nibble operands are below 16, as in every decoded instruction.
    pub open spec fn well_formed(self) -> bool {
        match self {
            Instruction::SEByte(x, _) | Instruction::SNEByte(x, _) | Instruction::LDByte(x, _)
            | Instruction::ADDByte(x, _) | Instruction::RND(x, _) => x < 16,
            Instruction::SEReg(x, y) | Instruction::LDReg(x, y) | Instruction::OR(x, y)
            | Instruction::AND(x, y) | Instruction::XOR(x, y) | Instruction::ADDReg(x, y)
            | Instruction::SUBReg(x, y) | Instruction::SHR(x, y) | Instruction::SUBN(x, y)
            | Instruction::SHL(x, y) | Instruction::SNEReg(x, y) => x < 16 && y < 16,
            Instruction::DRW(x, y, n) => x < 16 && y < 16 && n < 16,
            Instruction::SKP(x) | Instruction::SKNP(x) | Instruction::LDVxDT(x)
            | Instruction::LDVxK(x) | Instruction::LDDTVx(x) | Instruction::LDSTVx(x)
            | Instruction::ADDI(x) | Instruction::LDF(x) | Instruction::LDB(x)
            | Instruction::LDStore(x) | Instruction::LDLoad(x) => x < 16,
            _ => true,
        }
    }
}

/// Every opcode decodes to a well-formed instruction.
pub proof fn lemma_decode_well_formed(op: u16)
    ensures
        decode_spec(op).well_formed(),
{
}

} // verus!
