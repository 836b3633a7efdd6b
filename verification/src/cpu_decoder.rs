//! The instruction decoder: a total, side-effect-free function from 16-bit
//! opcodes to decoded instructions, with an error for every encoding
//! outside the ISA.

use vstd::prelude::*;
use crate::cpu_instructions::{X, Y, KK, NNN, N};

verus! {

/// An opcode that is not in the ISA table; carries the offending opcode.
#[derive(Clone, Copy, PartialEq, Eq, Structural, Debug)]
pub struct DecodeError(pub u16);

/// A decoded instruction with its operands: one variant per opcode of the
/// classic CHIP-8 ISA.
#[derive(Clone, Copy, PartialEq, Eq, Structural, Debug)]
pub enum Instruction {
    Sys,
    Cls,
    Ret,
    JpNnn(NNN),
    CallNnn(NNN),
    SeVxKk(X, KK),
    SneVxKk(X, KK),
    SeVxVy(X, Y),
    LdVxKk(X, KK),
    AddVxKk(X, KK),
    LdVxVy(X, Y),
    OrVxVy(X, Y),
    AndVxVy(X, Y),
    XorVxVy(X, Y),
    AddVxVy(X, Y),
    SubVxVy(X, Y),
    ShrVxVy(X, Y),
    SubnVxVy(X, Y),
    ShlVxVy(X, Y),
    SneVxVy(X, Y),
    LdINnn(NNN),
    JpV0Nnn(NNN),
    RndVxKk(X, KK),
    DrwVxVyN(X, Y, N),
    SkpVx(X),
    SknpVx(X),
    LdVxDt(X),
    LdVxK(X),
    LdDtVx(X),
    LdStVx(X),
    AddIVx(X),
    LdFVx(X),
    LdBVx(X),
    LdIVx(X),
    LdVxI(X),
}

/// The first register field of an opcode.
pub open spec fn op_x(op: u16) -> X {
    X(((op / 256) % 16) as usize)
}

/// The second register field of an opcode.
pub open spec fn op_y(op: u16) -> Y {
    Y(((op / 16) % 16) as usize)
}

/// The 8-bit literal field of an opcode.
pub open spec fn op_kk(op: u16) -> KK {
    KK((op % 256) as u8)
}

/// The 12-bit address field of an opcode.
pub open spec fn op_nnn(op: u16) -> NNN {
    NNN((op % 4096) as u16)
}

/// The 4-bit literal field of an opcode.
pub open spec fn op_n(op: u16) -> N {
    N((op % 16) as u16)
}

/// The ISA table: which instruction, if any, a 16-bit opcode encodes.
/// Dispatch is on the high nibble, with sub-dispatch on the low nibble or
/// low byte.
pub open spec fn spec_decode(op: u16) -> Result<Instruction, DecodeError> {
    let x = op_x(op);
    let y = op_y(op);
    let kk = op_kk(op);
    let nnn = op_nnn(op);
    let n = op_n(op);
    if op == 0x00E0 {
        Ok(Instruction::Cls)
    } else if op == 0x00EE {
        Ok(Instruction::Ret)
    } else if op / 4096 == 0x0 {
        Ok(Instruction::Sys)
    } else if op / 4096 == 0x1 {
        Ok(Instruction::JpNnn(nnn))
    } else if op / 4096 == 0x2 {
        Ok(Instruction::CallNnn(nnn))
    } else if op / 4096 == 0x3 {
        Ok(Instruction::SeVxKk(x, kk))
    } else if op / 4096 == 0x4 {
        Ok(Instruction::SneVxKk(x, kk))
    } else if op / 4096 == 0x5 {
        if op % 16 == 0 {
            Ok(Instruction::SeVxVy(x, y))
        } else {
            Err(DecodeError(op))
        }
    } else if op / 4096 == 0x6 {
        Ok(Instruction::LdVxKk(x, kk))
    } else if op / 4096 == 0x7 {
        Ok(Instruction::AddVxKk(x, kk))
    } else if op / 4096 == 0x8 {
        if op % 16 == 0x0 {
            Ok(Instruction::LdVxVy(x, y))
        } else if op % 16 == 0x1 {
            Ok(Instruction::OrVxVy(x, y))
        } else if op % 16 == 0x2 {
            Ok(Instruction::AndVxVy(x, y))
        } else if op % 16 == 0x3 {
            Ok(Instruction::XorVxVy(x, y))
        } else if op % 16 == 0x4 {
            Ok(Instruction::AddVxVy(x, y))
        } else if op % 16 == 0x5 {
            Ok(Instruction::SubVxVy(x, y))
        } else if op % 16 == 0x6 {
            Ok(Instruction::ShrVxVy(x, y))
        } else if op % 16 == 0x7 {
            Ok(Instruction::SubnVxVy(x, y))
        } else if op % 16 == 0xE {
            Ok(Instruction::ShlVxVy(x, y))
        } else {
            Err(DecodeError(op))
        }
    } else if op / 4096 == 0x9 {
        if op % 16 == 0 {
            Ok(Instruction::SneVxVy(x, y))
        } else {
            Err(DecodeError(op))
        }
    } else if op / 4096 == 0xA {
        Ok(Instruction::LdINnn(nnn))
    } else if op / 4096 == 0xB {
        Ok(Instruction::JpV0Nnn(nnn))
    } else if op / 4096 == 0xC {
        Ok(Instruction::RndVxKk(x, kk))
    } else if op / 4096 == 0xD {
        Ok(Instruction::DrwVxVyN(x, y, n))
    } else if op / 4096 == 0xE {
        if op % 256 == 0x9E {
            Ok(Instruction::SkpVx(x))
        } else if op % 256 == 0xA1 {
            Ok(Instruction::SknpVx(x))
        } else {
            Err(DecodeError(op))
        }
    } else {
        if op % 256 == 0x07 {
            Ok(Instruction::LdVxDt(x))
        } else if op % 256 == 0x0A {
            Ok(Instruction::LdVxK(x))
        } else if op % 256 == 0x15 {
            Ok(Instruction::LdDtVx(x))
        } else if op % 256 == 0x18 {
            Ok(Instruction::LdStVx(x))
        } else if op % 256 == 0x1E {
            Ok(Instruction::AddIVx(x))
        } else if op % 256 == 0x29 {
            Ok(Instruction::LdFVx(x))
        } else if op % 256 == 0x33 {
            Ok(Instruction::LdBVx(x))
        } else if op % 256 == 0x55 {
            Ok(Instruction::LdIVx(x))
        } else if op % 256 == 0x65 {
            Ok(Instruction::LdVxI(x))
        } else {
            Err(DecodeError(op))
        }
    }
}

/// Decode a 16-bit opcode, exactly as the ISA table says.
pub fn decode(opcode: u16) -> (r: Result<Instruction, DecodeError>)
    ensures
        r == spec_decode(opcode),
{
    let x = X(((opcode / 256) % 16) as usize);
    let y = Y(((opcode / 16) % 16) as usize);
    let kk = KK((opcode % 256) as u8);
    let nnn = NNN(opcode % 4096);
    let n = N(opcode % 16);
    match opcode / 4096 {
        0x0 => match opcode {
            0x00E0 => Ok(Instruction::Cls),
            0x00EE => Ok(Instruction::Ret),
            _ => Ok(Instruction::Sys),
        },
        0x1 => Ok(Instruction::JpNnn(nnn)),
        0x2 => Ok(Instruction::CallNnn(nnn)),
        0x3 => Ok(Instruction::SeVxKk(x, kk)),
        0x4 => Ok(Instruction::SneVxKk(x, kk)),
        0x5 => match opcode % 16 {
            0x0 => Ok(Instruction::SeVxVy(x, y)),
            _ => Err(DecodeError(opcode)),
        },
        0x6 => Ok(Instruction::LdVxKk(x, kk)),
        0x7 => Ok(Instruction::AddVxKk(x, kk)),
        0x8 => match opcode % 16 {
            0x0 => Ok(Instruction::LdVxVy(x, y)),
            0x1 => Ok(Instruction::OrVxVy(x, y)),
            0x2 => Ok(Instruction::AndVxVy(x, y)),
            0x3 => Ok(Instruction::XorVxVy(x, y)),
            0x4 => Ok(Instruction::AddVxVy(x, y)),
            0x5 => Ok(Instruction::SubVxVy(x, y)),
            0x6 => Ok(Instruction::ShrVxVy(x, y)),
            0x7 => Ok(Instruction::SubnVxVy(x, y)),
            0xE => Ok(Instruction::ShlVxVy(x, y)),
            _ => Err(DecodeError(opcode)),
        },
        0x9 => match opcode % 16 {
            0x0 => Ok(Instruction::SneVxVy(x, y)),
            _ => Err(DecodeError(opcode)),
        },
        0xA => Ok(Instruction::LdINnn(nnn)),
        0xB => Ok(Instruction::JpV0Nnn(nnn)),
        0xC => Ok(Instruction::RndVxKk(x, kk)),
        0xD => Ok(Instruction::DrwVxVyN(x, y, n)),
        0xE => match opcode % 256 {
            0x9E => Ok(Instruction::SkpVx(x)),
            0xA1 => Ok(Instruction::SknpVx(x)),
            _ => Err(DecodeError(opcode)),
        },
        _ => match opcode % 256 {
            0x07 => Ok(Instruction::LdVxDt(x)),
            0x0A => Ok(Instruction::LdVxK(x)),
            0x15 => Ok(Instruction::LdDtVx(x)),
            0x18 => Ok(Instruction::LdStVx(x)),
            0x1E => Ok(Instruction::AddIVx(x)),
            0x29 => Ok(Instruction::LdFVx(x)),
            0x33 => Ok(Instruction::LdBVx(x)),
            0x55 => Ok(Instruction::LdIVx(x)),
            0x65 => Ok(Instruction::LdVxI(x)),
            _ => Err(DecodeError(opcode)),
        },
    }
}

/// Every decoded instruction carries operands in their documented ranges:
/// register fields below 16, addresses below 4096, 4-bit literals below 16.
pub open spec fn instr_wf(i: Instruction) -> bool {
    match i {
        Instruction::Sys | Instruction::Cls | Instruction::Ret => true,
        Instruction::JpNnn(nnn) | Instruction::CallNnn(nnn) | Instruction::LdINnn(nnn)
            | Instruction::JpV0Nnn(nnn) => nnn.0 < 4096,
        Instruction::SeVxKk(x, _) | Instruction::SneVxKk(x, _) | Instruction::LdVxKk(x, _)
            | Instruction::AddVxKk(x, _) | Instruction::RndVxKk(x, _) => x.0 < 16,
        Instruction::SeVxVy(x, y) | Instruction::LdVxVy(x, y) | Instruction::OrVxVy(x, y)
            | Instruction::AndVxVy(x, y) | Instruction::XorVxVy(x, y)
            | Instruction::AddVxVy(x, y) | Instruction::SubVxVy(x, y)
            | Instruction::ShrVxVy(x, y) | Instruction::SubnVxVy(x, y)
            | Instruction::ShlVxVy(x, y) | Instruction::SneVxVy(x, y) => x.0 < 16 && y.0 < 16,
        Instruction::DrwVxVyN(x, y, n) => x.0 < 16 && y.0 < 16 && n.0 < 16,
        Instruction::SkpVx(x) | Instruction::SknpVx(x) | Instruction::LdVxDt(x)
            | Instruction::LdVxK(x) | Instruction::LdDtVx(x) | Instruction::LdStVx(x)
            | Instruction::AddIVx(x) | Instruction::LdFVx(x) | Instruction::LdBVx(x)
            | Instruction::LdIVx(x) | Instruction::LdVxI(x) => x.0 < 16,
    }
}

/// Whatever the decoder accepts is well-formed.
pub proof fn lemma_decode_wf(op: u16)
    ensures
        spec_decode(op) matches Ok(i) ==> instr_wf(i),
{
}

} // verus!
