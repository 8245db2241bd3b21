//! Decoding raw 16-bit opcodes into typed instructions.

use vstd::prelude::*;

use crate::Fault;

verus! {

/// The typed form of an opcode, with its operand fields extracted.
///
/// `x` and `y` are register indices (always below 16), `value` is an 8-bit
/// immediate (or a 4-bit sprite height for `Display`), and addresses are
/// 12-bit memory offsets.
#[derive(Clone, Copy, PartialEq, Eq, Structural, Debug)]
#[allow(inconsistent_fields)]
pub enum Instructions {
    /// `00E0`: blank the whole framebuffer.
    ClearScreen,
    /// `00EE`: pop a return address and resume just past it.
    Return,
    /// `1NNN`: set the program counter to `NNN`.
    JumpToAddress(u16),
    /// `2NNN`: push the program counter and jump to `NNN`.
    CallSub(u16),
    /// `3XNN`: skip the next instruction if `V[x] == NN`.
    SkipIfEqual { x: u8, value: u8 },
    /// `4XNN`: skip the next instruction if `V[x] != NN`.
    SkipIfNotEqualValue { x: u8, value: u8 },
    /// `5XY0`: skip the next instruction if `V[x] == V[y]`.
    SkipIfRegEqual { x: u8, y: u8 },
    /// `6XNN`: set `V[x]` to `NN`.
    SetValueToReg { x: u8, value: u8 },
    /// `7XNN`: add `NN` to `V[x]` with 8-bit wraparound; the flag is untouched.
    AddValueToReg { x: u8, value: u8 },
    /// `8XY0`: copy `V[y]` into `V[x]`.
    AssignValueToReg { x: u8, y: u8 },
    /// `8XY1`: bitwise-or `V[y]` into `V[x]`.
    AssignOrValue { x: u8, y: u8 },
    /// `8XY2`: bitwise-and `V[y]` into `V[x]`.
    AssignAndValue { x: u8, y: u8 },
    /// `8XY3`: bitwise-xor `V[y]` into `V[x]`.
    AssignXorValue { x: u8, y: u8 },
    /// `8XY4`: `V[x] += V[y]` with wraparound; the flag records the carry.
    AssignAddValue { x: u8, y: u8 },
    /// `8XY5`: `V[x] -= V[y]` with wraparound; the flag is 1 when no borrow occurred.
    AssignSubValue { x: u8, y: u8 },
    /// `8XY6`: store the least significant bit of `V[x]` in the flag, then shift right.
    ShiftRight { x: u8 },
    /// `8XY7`: `V[x] = V[y] - V[x]` with wraparound; the flag is 1 when no borrow occurred.
    AssignMinusValue { x: u8, y: u8 },
    /// `8XYE`: store the most significant bit of `V[x]` in the flag, then shift left.
    ShiftLeft { x: u8 },
    /// `9XY0`: skip the next instruction if `V[x] != V[y]`.
    SkipIfRegNotEqual { x: u8, y: u8 },
    /// `ANNN`: set the index register to `NNN`.
    SetMem { value: u16 },
    /// `BNNN`: jump to `NNN + V[0]`.
    JumpToValue { value: u16 },
    /// `CXNN`: set `V[x]` to a random byte masked with `NN`.
    RandomAnd { x: u8, value: u8 },
    /// `DXYN`: XOR-blit an `N`-row sprite at `(V[x], V[y])`; the flag records collisions.
    Display { x: u8, y: u8, value: u8 },
    /// `EX9E`: skip the next instruction if the key named by `V[x]` is pressed.
    PressedKey { x: u8 },
    /// `EXA1`: skip the next instruction if the key named by `V[x]` is not pressed.
    NotPressedKey { x: u8 },
    /// `FX07`: copy the delay timer into `V[x]`.
    SetValueToDelayTimer { x: u8 },
    /// `FX0A`: stay on this instruction until the key named by `V[x]` is pressed.
    WaitForKey { x: u8 },
    /// `FX15`: set the delay timer from `V[x]`.
    SetDelayTimerToReg { x: u8 },
    /// `FX18`: set the sound timer from `V[x]`.
    SetSoundTimerTOReg { x: u8 },
    /// `FX1E`: add `V[x]` to the index register.
    SetIFromReg { x: u8 },
    /// `FX29`: point the index register at the built-in glyph for `V[x]`.
    SetIFromSprite { x: u8 },
    /// `FX33`: write the decimal digits of `V[x]` at the index register's address.
    BCD { x: u8 },
    /// `FX55`: copy `V[0]..=V[x]` to memory, advancing the index register.
    RegDump { x: u8 },
    /// `FX65`: load `V[0]..=V[x]` from memory, advancing the index register.
    RegLoad { x: u8 },
}

/// The register index in bits 8..12 of an opcode.
pub open spec fn op_x(op: u16) -> u8 {
    ((op as int / 0x100) % 16) as u8
}

/// The register index in bits 4..8 of an opcode.
pub open spec fn op_y(op: u16) -> u8 {
    ((op as int / 16) % 16) as u8
}

/// The low nibble of an opcode.
pub open spec fn op_n(op: u16) -> u8 {
    (op as int % 16) as u8
}

/// The low byte of an opcode.
pub open spec fn op_kk(op: u16) -> u8 {
    (op as int % 256) as u8
}

/// The 12-bit address operand of an opcode.
pub open spec fn op_addr(op: u16) -> u16 {
    (op as int % 0x1000) as u16
}

/// The meaning of every 16-bit value as an instruction: the documented forms
/// decode to their variant, everything else to `None`.
pub open spec fn spec_decode(op: u16) -> Option<Instructions> {
    let fam = op as int / 0x1000;
    if fam == 0x0 {
        if op == 0x00E0 {
            Some(Instructions::ClearScreen)
        } else if op == 0x00EE {
            Some(Instructions::Return)
        } else {
            None
        }
    } else if fam == 0x1 {
        Some(Instructions::JumpToAddress(op_addr(op)))
    } else if fam == 0x2 {
        Some(Instructions::CallSub(op_addr(op)))
    } else if fam == 0x3 {
        Some(Instructions::SkipIfEqual { x: op_x(op), value: op_kk(op) })
    } else if fam == 0x4 {
        Some(Instructions::SkipIfNotEqualValue { x: op_x(op), value: op_kk(op) })
    } else if fam == 0x5 {
        if op_n(op) == 0x0 {
            Some(Instructions::SkipIfRegEqual { x: op_x(op), y: op_y(op) })
        } else {
            None
        }
    } else if fam == 0x6 {
        Some(Instructions::SetValueToReg { x: op_x(op), value: op_kk(op) })
    } else if fam == 0x7 {
        Some(Instructions::AddValueToReg { x: op_x(op), value: op_kk(op) })
    } else if fam == 0x8 {
        let sub = op_n(op);
        if sub == 0x0 {
            Some(Instructions::AssignValueToReg { x: op_x(op), y: op_y(op) })
        } else if sub == 0x1 {
            Some(Instructions::AssignOrValue { x: op_x(op), y: op_y(op) })
        } else if sub == 0x2 {
            Some(Instructions::AssignAndValue { x: op_x(op), y: op_y(op) })
        } else if sub == 0x3 {
            Some(Instructions::AssignXorValue { x: op_x(op), y: op_y(op) })
        } else if sub == 0x4 {
            Some(Instructions::AssignAddValue { x: op_x(op), y: op_y(op) })
        } else if sub == 0x5 {
            Some(Instructions::AssignSubValue { x: op_x(op), y: op_y(op) })
        } else if sub == 0x6 {
            Some(Instructions::ShiftRight { x: op_x(op) })
        } else if sub == 0x7 {
            Some(Instructions::AssignMinusValue { x: op_x(op), y: op_y(op) })
        } else if sub == 0xE {
            Some(Instructions::ShiftLeft { x: op_x(op) })
        } else {
            None
        }
    } else if fam == 0x9 {
        if op_n(op) == 0x0 {
            Some(Instructions::SkipIfRegNotEqual { x: op_x(op), y: op_y(op) })
        } else {
            None
        }
    } else if fam == 0xA {
        Some(Instructions::SetMem { value: op_addr(op) })
    } else if fam == 0xB {
        Some(Instructions::JumpToValue { value: op_addr(op) })
    } else if fam == 0xC {
        Some(Instructions::RandomAnd { x: op_x(op), value: op_kk(op) })
    } else if fam == 0xD {
        Some(Instructions::Display { x: op_x(op), y: op_y(op), value: op_n(op) })
    } else if fam == 0xE {
        if op_kk(op) == 0x9E {
            Some(Instructions::PressedKey { x: op_x(op) })
        } else if op_kk(op) == 0xA1 {
            Some(Instructions::NotPressedKey { x: op_x(op) })
        } else {
            None
        }
    } else if fam == 0xF {
        let sub = op_kk(op);
        if sub == 0x07 {
            Some(Instructions::SetValueToDelayTimer { x: op_x(op) })
        } else if sub == 0x0A {
            Some(Instructions::WaitForKey { x: op_x(op) })
        } else if sub == 0x15 {
            Some(Instructions::SetDelayTimerToReg { x: op_x(op) })
        } else if sub == 0x18 {
            Some(Instructions::SetSoundTimerTOReg { x: op_x(op) })
        } else if sub == 0x1E {
            Some(Instructions::SetIFromReg { x: op_x(op) })
        } else if sub == 0x29 {
            Some(Instructions::SetIFromSprite { x: op_x(op) })
        } else if sub == 0x33 {
            Some(Instructions::BCD { x: op_x(op) })
        } else if sub == 0x55 {
            Some(Instructions::RegDump { x: op_x(op) })
        } else if sub == 0x65 {
            Some(Instructions::RegLoad { x: op_x(op) })
        } else {
            None
        }
    } else {
        None
    }
}

impl Instructions {
    /// Every operand field is in range: register indices and the sprite
    /// height below 16, addresses below 4096.
    pub open spec fn wf(self) -> bool {
        match self {
            Instructions::ClearScreen => true,
            Instructions::Return => true,
            Instructions::JumpToAddress(a) => a < 0x1000,
            Instructions::CallSub(a) => a < 0x1000,
            Instructions::SkipIfEqual { x, value } => x < 16,
            Instructions::SkipIfNotEqualValue { x, value } => x < 16,
            Instructions::SkipIfRegEqual { x, y } => x < 16 && y < 16,
            Instructions::SetValueToReg { x, value } => x < 16,
            Instructions::AddValueToReg { x, value } => x < 16,
            Instructions::AssignValueToReg { x, y } => x < 16 && y < 16,
            Instructions::AssignOrValue { x, y } => x < 16 && y < 16,
            Instructions::AssignAndValue { x, y } => x < 16 && y < 16,
            Instructions::AssignXorValue { x, y } => x < 16 && y < 16,
            Instructions::AssignAddValue { x, y } => x < 16 && y < 16,
            Instructions::AssignSubValue { x, y } => x < 16 && y < 16,
            Instructions::ShiftRight { x } => x < 16,
            Instructions::AssignMinusValue { x, y } => x < 16 && y < 16,
            Instructions::ShiftLeft { x } => x < 16,
            Instructions::SkipIfRegNotEqual { x, y } => x < 16 && y < 16,
            Instructions::SetMem { value } => value < 0x1000,
            Instructions::JumpToValue { value } => value < 0x1000,
            Instructions::RandomAnd { x, value } => x < 16,
            Instructions::Display { x, y, value } => x < 16 && y < 16 && value < 16,
            Instructions::PressedKey { x } => x < 16,
            Instructions::NotPressedKey { x } => x < 16,
            Instructions::SetValueToDelayTimer { x } => x < 16,
            Instructions::WaitForKey { x } => x < 16,
            Instructions::SetDelayTimerToReg { x } => x < 16,
            Instructions::SetSoundTimerTOReg { x } => x < 16,
            Instructions::SetIFromReg { x } => x < 16,
            Instructions::SetIFromSprite { x } => x < 16,
            Instructions::BCD { x } => x < 16,
            Instructions::RegDump { x } => x < 16,
            Instructions::RegLoad { x } => x < 16,
        }
    }

    /// Decode one opcode. Decoding is total and deterministic: every 16-bit
    /// value either yields exactly the variant `spec_decode` gives it, or the
    /// decode fault carrying the raw opcode.
    pub fn decode(op: u16) -> (r: Result<Instructions, Fault>)
        ensures
            (match spec_decode(op) {
                Some(i) => r == Ok::<Instructions, Fault>(i),
                None => r == Err::<Instructions, Fault>(Fault::Decode { opcode: op }),
            }),
            r matches Ok(i) ==> i.wf(),
    {
        let fam: u16 = op / 0x1000;
        let x: u8 = ((op / 0x100) % 16) as u8;
        let y: u8 = ((op / 16) % 16) as u8;
        let n: u8 = (op % 16) as u8;
        let kk: u8 = (op % 256) as u8;
        let a: u16 = op % 0x1000;
        match fam {
            0x0 => {
                if op == 0x00E0 {
                    Ok(Instructions::ClearScreen)
                } else if op == 0x00EE {
                    Ok(Instructions::Return)
                } else {
                    Err(Fault::Decode { opcode: op })
                }
            },
            0x1 => Ok(Instructions::JumpToAddress(a)),
            0x2 => Ok(Instructions::CallSub(a)),
            0x3 => Ok(Instructions::SkipIfEqual { x, value: kk }),
            0x4 => Ok(Instructions::SkipIfNotEqualValue { x, value: kk }),
            0x5 => {
                if n == 0x0 {
                    Ok(Instructions::SkipIfRegEqual { x, y })
                } else {
                    Err(Fault::Decode { opcode: op })
                }
            },
            0x6 => Ok(Instructions::SetValueToReg { x, value: kk }),
            0x7 => Ok(Instructions::AddValueToReg { x, value: kk }),
            0x8 => match n {
                0x0 => Ok(Instructions::AssignValueToReg { x, y }),
                0x1 => Ok(Instructions::AssignOrValue { x, y }),
                0x2 => Ok(Instructions::AssignAndValue { x, y }),
                0x3 => Ok(Instructions::AssignXorValue { x, y }),
                0x4 => Ok(Instructions::AssignAddValue { x, y }),
                0x5 => Ok(Instructions::AssignSubValue { x, y }),
                0x6 => Ok(Instructions::ShiftRight { x }),
                0x7 => Ok(Instructions::AssignMinusValue { x, y }),
                0xE => Ok(Instructions::ShiftLeft { x }),
                _ => Err(Fault::Decode { opcode: op }),
            },
            0x9 => {
                if n == 0x0 {
                    Ok(Instructions::SkipIfRegNotEqual { x, y })
                } else {
                    Err(Fault::Decode { opcode: op })
                }
            },
            0xA => Ok(Instructions::SetMem { value: a }),
            0xB => Ok(Instructions::JumpToValue { value: a }),
            0xC => Ok(Instructions::RandomAnd { x, value: kk }),
            0xD => Ok(Instructions::Display { x, y, value: n }),
            0xE => match kk {
                0x9E => Ok(Instructions::PressedKey { x }),
                0xA1 => Ok(Instructions::NotPressedKey { x }),
                _ => Err(Fault::Decode { opcode: op }),
            },
            0xF => match kk {
                0x07 => Ok(Instructions::SetValueToDelayTimer { x }),
                0x0A => Ok(Instructions::WaitForKey { x }),
                0x15 => Ok(Instructions::SetDelayTimerToReg { x }),
                0x18 => Ok(Instructions::SetSoundTimerTOReg { x }),
                0x1E => Ok(Instructions::SetIFromReg { x }),
                0x29 => Ok(Instructions::SetIFromSprite { x }),
                0x33 => Ok(Instructions::BCD { x }),
                0x55 => Ok(Instructions::RegDump { x }),
                0x65 => Ok(Instructions::RegLoad { x }),
                _ => Err(Fault::Decode { opcode: op }),
            },
            _ => Err(Fault::Decode { opcode: op }),
        }
    }
}

} // verus!
