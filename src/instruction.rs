use vstd::prelude::*;

verus! {

/// Register index held in bits 8 to 11 of an instruction word.
pub open spec fn word_x(op: u16) -> u8 {
    ((op as int / 256) % 16) as u8
}

/// Register index held in bits 4 to 7 of an instruction word.
pub open spec fn word_y(op: u16) -> u8 {
    ((op as int / 16) % 16) as u8
}

/// Immediate byte held in bits 0 to 7 of an instruction word.
pub open spec fn word_kk(op: u16) -> u8 {
    (op as int % 256) as u8
}

/// Address held in bits 0 to 11 of an instruction word.
pub open spec fn word_nnn(op: u16) -> u16 {
    (op as int % 4096) as u16
}

/// Immediate nibble held in bits 0 to 3 of an instruction word.
pub open spec fn word_n(op: u16) -> u8 {
    (op as int % 16) as u8
}

/// Family of an instruction word: bits 12 to 15.
pub open spec fn word_family(op: u16) -> u16 {
    (op as int / 4096) as u16
}

/// One decoded instruction with its operand fields.
#[derive(Clone, Copy, Debug, PartialEq, Eq)]
pub enum Instruction {
    /// `00E0`: clear the framebuffer.
    Cls,
    /// `00EE`: return from a subroutine.
    Ret,
    /// `0nnn` (other than the two above): jump to `nnn`.
    Sys { nnn: u16 },
    /// `1nnn`: jump to `nnn`.
    Jp { nnn: u16 },
    /// `2nnn`: call the subroutine at `nnn`.
    Call { nnn: u16 },
    /// `3xkk`: skip the next instruction if `Vx == kk`.
    SeByte { x: u8, kk: u8 },
    /// `4xkk`: skip the next instruction if `Vx != kk`.
    SneByte { x: u8, kk: u8 },
    /// `5xy_`: skip the next instruction if `Vx == Vy`.
    SeReg { x: u8, y: u8 },
    /// `6xkk`: `Vx = kk`.
    LdByte { x: u8, kk: u8 },
    /// `7xkk`: `Vx = Vx + kk`, wrapping, flag untouched.
    AddByte { x: u8, kk: u8 },
    /// `8xy0`: `Vx = Vy`.
    LdReg { x: u8, y: u8 },
    /// `8xy1`: `Vx = Vx | Vy`.
    Or { x: u8, y: u8 },
    /// `8xy2`: `Vx = Vx & Vy`.
    And { x: u8, y: u8 },
    /// `8xy3`: `Vx = Vx ^ Vy`.
    Xor { x: u8, y: u8 },
    /// `8xy4`: `Vx = Vx + Vy`, wrapping, flag = carry.
    AddReg { x: u8, y: u8 },
    /// `8xy5`: `Vx = Vx - Vy`, wrapping, flag = `Vx > Vy`.
    Sub { x: u8, y: u8 },
    /// `8xy6`: `Vx = Vx >> 1`, flag = the bit shifted out.
    Shr { x: u8 },
    /// `8xy7`: `Vx = Vy - Vx`, wrapping, flag = `Vy > Vx`.
    Subn { x: u8, y: u8 },
    /// `8xyE`: `Vx = Vx << 1`, flag = the bit shifted out.
    Shl { x: u8 },
    /// `9xy_`: skip the next instruction if `Vx != Vy`.
    SneReg { x: u8, y: u8 },
    /// `Annn`: `I = nnn`.
    LdI { nnn: u16 },
    /// `Bnnn`: jump to `nnn + V0`.
    JpV0 { nnn: u16 },
    /// `Cxkk`: `Vx = random byte & kk`.
    Rnd { x: u8, kk: u8 },
    /// `Dxyn`: draw an `n`-row sprite from memory at `I` at `(Vx, Vy)`.
    Drw { x: u8, y: u8, n: u8 },
    /// `Ex9E`: skip the next instruction if key `Vx` is pressed.
    Skp { x: u8 },
    /// `ExA1`: skip the next instruction if key `Vx` is not pressed.
    Sknp { x: u8 },
    /// `Fx07`: `Vx = delay timer`.
    LdVxDt { x: u8 },
    /// `Fx0A`: wait for a key press and store its number in `Vx`.
    LdVxK { x: u8 },
    /// `Fx15`: `delay timer = Vx`.
    LdDtVx { x: u8 },
    /// `Fx18`: `sound timer = Vx`.
    LdStVx { x: u8 },
    /// `Fx1E`: `I = I + Vx`, wrapping at 16 bits.
    AddI { x: u8 },
    /// `Fx29`: `I` = address of the digit sprite for `Vx`.
    LdF { x: u8 },
    /// `Fx33`: store the decimal digits of `Vx` at `I`, `I + 1`, `I + 2`.
    LdB { x: u8 },
    /// `Fx55`: store `V0` to `Vx` in memory from `I` on.
    Store { x: u8 },
    /// `Fx65`: load `V0` to `Vx` from memory from `I` on.
    Load { x: u8 },
}

impl Instruction {
    /// Operand fields are in range: registers and nibbles below 16,
    /// addresses below 4096.
    pub open spec fn wf(self) -> bool {
        match self {
            Instruction::Cls | Instruction::Ret => true,
            Instruction::Sys { nnn } | Instruction::Jp { nnn } | Instruction::Call { nnn }
            | Instruction::LdI { nnn } | Instruction::JpV0 { nnn } => nnn < 4096,
            Instruction::SeByte { x, kk: _ } | Instruction::SneByte { x, kk: _ }
            | Instruction::LdByte { x, kk: _ } | Instruction::AddByte { x, kk: _ }
            | Instruction::Rnd { x, kk: _ } => x < 16,
            Instruction::SeReg { x, y } | Instruction::LdReg { x, y } | Instruction::Or { x, y }
            | Instruction::And { x, y } | Instruction::Xor { x, y } | Instruction::AddReg { x, y }
            | Instruction::Sub { x, y } | Instruction::Subn { x, y }
            | Instruction::SneReg { x, y } => x < 16 && y < 16,
            Instruction::Drw { x, y, n } => x < 16 && y < 16 && n < 16,
            Instruction::Shr { x } | Instruction::Shl { x } | Instruction::Skp { x }
            | Instruction::Sknp { x } | Instruction::LdVxDt { x } | Instruction::LdVxK { x }
            | Instruction::LdDtVx { x } | Instruction::LdStVx { x } | Instruction::AddI { x }
            | Instruction::LdF { x } | Instruction::LdB { x } | Instruction::Store { x }
            | Instruction::Load { x } => x < 16,
        }
    }
}

/// The instruction that a 16-bit word encodes, or `None` for a word that
/// matches no pattern of the instruction set.
pub open spec fn decode_spec(op: u16) -> Option<Instruction> {
    let x = word_x(op);
    let y = word_y(op);
    let kk = word_kk(op);
    let nnn = word_nnn(op);
    let n = word_n(op);
    let family = word_family(op);
    if family == 0x0 {
        if op == 0x00E0 {
            Some(Instruction::Cls)
        } else if op == 0x00EE {
            Some(Instruction::Ret)
        } else {
            Some(Instruction::Sys { nnn })
        }
    } else if family == 0x1 {
        Some(Instruction::Jp { nnn })
    } else if family == 0x2 {
        Some(Instruction::Call { nnn })
    } else if family == 0x3 {
        Some(Instruction::SeByte { x, kk })
    } else if family == 0x4 {
        Some(Instruction::SneByte { x, kk })
    } else if family == 0x5 {
        Some(Instruction::SeReg { x, y })
    } else if family == 0x6 {
        Some(Instruction::LdByte { x, kk })
    } else if family == 0x7 {
        Some(Instruction::AddByte { x, kk })
    } else if family == 0x8 {
        if n == 0x0 {
            Some(Instruction::LdReg { x, y })
        } else if n == 0x1 {
            Some(Instruction::Or { x, y })
        } else if n == 0x2 {
            Some(Instruction::And { x, y })
        } else if n == 0x3 {
            Some(Instruction::Xor { x, y })
        } else if n == 0x4 {
            Some(Instruction::AddReg { x, y })
        } else if n == 0x5 {
            Some(Instruction::Sub { x, y })
        } else if n == 0x6 {
            Some(Instruction::Shr { x })
        } else if n == 0x7 {
            Some(Instruction::Subn { x, y })
        } else if n == 0xE {
            Some(Instruction::Shl { x })
        } else {
            None
        }
    } else if family == 0x9 {
        Some(Instruction::SneReg { x, y })
    } else if family == 0xA {
        Some(Instruction::LdI { nnn })
    } else if family == 0xB {
        Some(Instruction::JpV0 { nnn })
    } else if family == 0xC {
        Some(Instruction::Rnd { x, kk })
    } else if family == 0xD {
        Some(Instruction::Drw { x, y, n })
    } else if family == 0xE {
        if kk == 0x9E {
            Some(Instruction::Skp { x })
        } else if kk == 0xA1 {
            Some(Instruction::Sknp { x })
        } else {
            None
        }
    } else {
        if kk == 0x07 {
            Some(Instruction::LdVxDt { x })
        } else if kk == 0x0A {
            Some(Instruction::LdVxK { x })
        } else if kk == 0x15 {
            Some(Instruction::LdDtVx { x })
        } else if kk == 0x18 {
            Some(Instruction::LdStVx { x })
        } else if kk == 0x1E {
            Some(Instruction::AddI { x })
        } else if kk == 0x29 {
            Some(Instruction::LdF { x })
        } else if kk == 0x33 {
            Some(Instruction::LdB { x })
        } else if kk == 0x55 {
            Some(Instruction::Store { x })
        } else if kk == 0x65 {
            Some(Instruction::Load { x })
        } else {
            None
        }
    }
}

/// Splits a 16-bit word into its operand fields and finds the instruction it
/// encodes.
pub fn decode(opcode: u16) -> (r: Option<Instruction>)
    ensures
        r == decode_spec(opcode),
        r matches Some(ins) ==> ins.wf(),
{
    let x = ((opcode >> 8) & 0x000F) as u8;
    let y = ((opcode >> 4) & 0x000F) as u8;
    let kk = (opcode & 0x00FF) as u8;
    let nnn = opcode & 0x0FFF;
    let n = (opcode & 0x000F) as u8;
    let family = opcode >> 12;
    assert(((opcode >> 8) & 0x000F) == (opcode / 256) % 16) by (bit_vector);
    assert(((opcode >> 4) & 0x000F) == (opcode / 16) % 16) by (bit_vector);
    assert((opcode & 0x00FF) == opcode % 256) by (bit_vector);
    assert((opcode & 0x0FFF) == opcode % 4096) by (bit_vector);
    assert((opcode & 0x000F) == opcode % 16) by (bit_vector);
    assert((opcode >> 12) == opcode / 4096 && opcode / 4096 < 16) by (bit_vector);
    let r = match family {
        0x0 => {
            if opcode == 0x00E0 {
                Some(Instruction::Cls)
            } else if opcode == 0x00EE {
                Some(Instruction::Ret)
            } else {
                Some(Instruction::Sys { nnn })
            }
        },
        0x1 => Some(Instruction::Jp { nnn }),
        0x2 => Some(Instruction::Call { nnn }),
        0x3 => Some(Instruction::SeByte { x, kk }),
        0x4 => Some(Instruction::SneByte { x, kk }),
        0x5 => Some(Instruction::SeReg { x, y }),
        0x6 => Some(Instruction::LdByte { x, kk }),
        0x7 => Some(Instruction::AddByte { x, kk }),
        0x8 => match n {
            0x0 => Some(Instruction::LdReg { x, y }),
            0x1 => Some(Instruction::Or { x, y }),
            0x2 => Some(Instruction::And { x, y }),
            0x3 => Some(Instruction::Xor { x, y }),
            0x4 => Some(Instruction::AddReg { x, y }),
            0x5 => Some(Instruction::Sub { x, y }),
            0x6 => Some(Instruction::Shr { x }),
            0x7 => Some(Instruction::Subn { x, y }),
            0xE => Some(Instruction::Shl { x }),
            _ => None,
        },
        0x9 => Some(Instruction::SneReg { x, y }),
        0xA => Some(Instruction::LdI { nnn }),
        0xB => Some(Instruction::JpV0 { nnn }),
        0xC => Some(Instruction::Rnd { x, kk }),
        0xD => Some(Instruction::Drw { x, y, n }),
        0xE => match kk {
            0x9E => Some(Instruction::Skp { x }),
            0xA1 => Some(Instruction::Sknp { x }),
            _ => None,
        },
        _ => match kk {
            0x07 => Some(Instruction::LdVxDt { x }),
            0x0A => Some(Instruction::LdVxK { x }),
            0x15 => Some(Instruction::LdDtVx { x }),
            0x18 => Some(Instruction::LdStVx { x }),
            0x1E => Some(Instruction::AddI { x }),
            0x29 => Some(Instruction::LdF { x }),
            0x33 => Some(Instruction::LdB { x }),
            0x55 => Some(Instruction::Store { x }),
            0x65 => Some(Instruction::Load { x }),
            _ => None,
        },
    };
    r
}

} // verus!
