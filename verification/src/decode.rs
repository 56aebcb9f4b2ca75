//! Instruction decoding.
//!
//! A 16-bit instruction word decodes by nibble pattern: the top nibble
//! selects a coarse family, and for families 0x0, 0x8, 0xE and 0xF a
//! secondary nibble or byte selects the specific operation. The decoder
//! is a total function: every word either yields a tagged instruction
//! value or is a decode failure, reported as `None` and left to the
//! driver to log or ignore.

use vstd::prelude::*;

verus! {

/// A decoded instruction. `x` and `y` are register selectors (always
/// below 16), `nn` an 8-bit immediate, `nnn` a 12-bit address, `n` a
/// 4-bit sprite height.
#[derive(Clone, Copy, Debug, PartialEq, Eq, Structural)]
pub enum Instruction {
    /// 00E0: clear the framebuffer.
    ClearScreen,
    /// 00EE: pop the call stack into the program counter.
    Return,
    /// 1NNN: jump to `nnn`.
    Jump(u16),
    /// 2NNN: push the program counter and jump to `nnn`.
    Call(u16),
    /// 3XNN: skip the next instruction if `Vx == nn`.
    SkipEqImm(u8, u8),
    /// 4XNN: skip the next instruction if `Vx != nn`.
    SkipNeImm(u8, u8),
    /// 5XY0 family: skip the next instruction if `Vx == Vy`.
    SkipEqReg(u8, u8),
    /// 6XNN: load `nn` into `Vx`.
    LoadImm(u8, u8),
    /// 7XNN: add `nn` into `Vx`, wrapping, with no flag effect.
    AddImm(u8, u8),
    /// 8XY0: copy `Vy` into `Vx`.
    Move(u8, u8),
    /// 8XY1: bitwise or of `Vy` into `Vx`.
    Or(u8, u8),
    /// 8XY2: bitwise and of `Vy` into `Vx`.
    And(u8, u8),
    /// 8XY3: bitwise exclusive or of `Vy` into `Vx`.
    Xor(u8, u8),
    /// 8XY4: add `Vy` into `Vx`; `VF` becomes the carry bit.
    Add(u8, u8),
    /// 8XY5: subtract `Vy` from `Vx`; `VF` becomes the not-borrow bit.
    Sub(u8, u8),
    /// 8XY6: copy `Vy` shifted right by one into `Vx`; `VF` receives the
    /// bit shifted out.
    ShiftRight(u8, u8),
    /// 8XY7: store `Vy - Vx` into `Vx`; `VF` becomes the not-borrow bit.
    SubNegate(u8, u8),
    /// 8XYE: copy `Vy` shifted left by one into `Vx`; `VF` receives the
    /// bit shifted out.
    ShiftLeft(u8, u8),
    /// 9XY0 family: skip the next instruction if `Vx != Vy`.
    SkipNeReg(u8, u8),
    /// ANNN: load `nnn` into the index register.
    SetIndex(u16),
    /// DXYN: draw the `n`-row sprite at the index register to
    /// `(Vx, Vy)`; `VF` becomes the collision bit.
    Draw(u8, u8, u8),
    /// EX9E: skip the next instruction if the key numbered `Vx` is down.
    SkipKeyPressed(u8),
    /// EXA1: skip the next instruction if the key numbered `Vx` is up.
    SkipKeyNotPressed(u8),
    /// FX07: load the delay timer into `Vx`.
    LoadDelay(u8),
    /// FX0A: wait for a key release and load its code into `Vx`.
    WaitKey(u8),
    /// FX15: load `Vx` into the delay timer.
    SetDelay(u8),
    /// FX18: load `Vx` into the sound timer.
    SetSound(u8),
    /// FX1E: add `Vx` into the index register, wrapping.
    AddIndex(u8),
    /// FX33: store the decimal digits of `Vx` at the index register.
    StoreDigits(u8),
    /// FX55: block-copy `V0 ..= Vx` to memory at the index register.
    StoreRegisters(u8),
    /// FX65: block-copy memory at the index register into `V0 ..= Vx`.
    LoadRegisters(u8),
}

/// The `x` register selector of a word: bits 8 through 11.
pub open spec fn word_x(w: u16) -> u8 {
    ((w >> 8) & 0xF) as u8
}

/// The `y` register selector of a word: bits 4 through 7.
pub open spec fn word_y(w: u16) -> u8 {
    ((w >> 4) & 0xF) as u8
}

/// The low nibble of a word.
pub open spec fn word_n(w: u16) -> u8 {
    (w & 0xF) as u8
}

/// The low byte of a word.
pub open spec fn word_nn(w: u16) -> u8 {
    (w & 0xFF) as u8
}

/// The low twelve bits of a word.
pub open spec fn word_nnn(w: u16) -> u16 {
    w & 0xFFF
}

/// What a word decodes to, if anything.
pub open spec fn spec_decode(w: u16) -> Option<Instruction> {
    let x = word_x(w);
    let y = word_y(w);
    let n = word_n(w);
    let nn = word_nn(w);
    let nnn = word_nnn(w);
    if w & 0xF000 == 0x0000 {
        if w & 0x000F == 0x0000 {
            Some(Instruction::ClearScreen)
        } else if w & 0x000F == 0x000E {
            Some(Instruction::Return)
        } else {
            None
        }
    } else if w & 0xF000 == 0x1000 {
        Some(Instruction::Jump(nnn))
    } else if w & 0xF000 == 0x2000 {
        Some(Instruction::Call(nnn))
    } else if w & 0xF000 == 0x3000 {
        Some(Instruction::SkipEqImm(x, nn))
    } else if w & 0xF000 == 0x4000 {
        Some(Instruction::SkipNeImm(x, nn))
    } else if w & 0xF000 == 0x5000 {
        Some(Instruction::SkipEqReg(x, y))
    } else if w & 0xF000 == 0x6000 {
        Some(Instruction::LoadImm(x, nn))
    } else if w & 0xF000 == 0x7000 {
        Some(Instruction::AddImm(x, nn))
    } else if w & 0xF000 == 0x8000 {
        if w & 0x000F == 0x0000 {
            Some(Instruction::Move(x, y))
        } else if w & 0x000F == 0x0001 {
            Some(Instruction::Or(x, y))
        } else if w & 0x000F == 0x0002 {
            Some(Instruction::And(x, y))
        } else if w & 0x000F == 0x0003 {
            Some(Instruction::Xor(x, y))
        } else if w & 0x000F == 0x0004 {
            Some(Instruction::Add(x, y))
        } else if w & 0x000F == 0x0005 {
            Some(Instruction::Sub(x, y))
        } else if w & 0x000F == 0x0006 {
            Some(Instruction::ShiftRight(x, y))
        } else if w & 0x000F == 0x0007 {
            Some(Instruction::SubNegate(x, y))
        } else if w & 0x000F == 0x000E {
            Some(Instruction::ShiftLeft(x, y))
        } else {
            None
        }
    } else if w & 0xF000 == 0x9000 {
        Some(Instruction::SkipNeReg(x, y))
    } else if w & 0xF000 == 0xA000 {
        Some(Instruction::SetIndex(nnn))
    } else if w & 0xF000 == 0xD000 {
        Some(Instruction::Draw(x, y, n))
    } else if w & 0xF000 == 0xE000 {
        if w & 0x00FF == 0x009E {
            Some(Instruction::SkipKeyPressed(x))
        } else if w & 0x00FF == 0x00A1 {
            Some(Instruction::SkipKeyNotPressed(x))
        } else {
            None
        }
    } else if w & 0xF000 == 0xF000 {
        if w & 0x00FF == 0x0007 {
            Some(Instruction::LoadDelay(x))
        } else if w & 0x00FF == 0x000A {
            Some(Instruction::WaitKey(x))
        } else if w & 0x00FF == 0x0015 {
            Some(Instruction::SetDelay(x))
        } else if w & 0x00FF == 0x0018 {
            Some(Instruction::SetSound(x))
        } else if w & 0x00FF == 0x001E {
            Some(Instruction::AddIndex(x))
        } else if w & 0x00FF == 0x0033 {
            Some(Instruction::StoreDigits(x))
        } else if w & 0x00FF == 0x0055 {
            Some(Instruction::StoreRegisters(x))
        } else if w & 0x00FF == 0x0065 {
            Some(Instruction::LoadRegisters(x))
        } else {
            None
        }
    } else {
        None
    }
}

/// Bounds of the fields a decoded instruction can carry: register
/// selectors and sprite heights below 16, addresses below 0x1000.
pub open spec fn instruction_wf(ins: Instruction) -> bool {
    match ins {
        Instruction::ClearScreen => true,
        Instruction::Return => true,
        Instruction::Jump(nnn) => nnn < 0x1000,
        Instruction::Call(nnn) => nnn < 0x1000,
        Instruction::SkipEqImm(x, _nn) => x < 16,
        Instruction::SkipNeImm(x, _nn) => x < 16,
        Instruction::SkipEqReg(x, y) => x < 16 && y < 16,
        Instruction::LoadImm(x, _nn) => x < 16,
        Instruction::AddImm(x, _nn) => x < 16,
        Instruction::Move(x, y) => x < 16 && y < 16,
        Instruction::Or(x, y) => x < 16 && y < 16,
        Instruction::And(x, y) => x < 16 && y < 16,
        Instruction::Xor(x, y) => x < 16 && y < 16,
        Instruction::Add(x, y) => x < 16 && y < 16,
        Instruction::Sub(x, y) => x < 16 && y < 16,
        Instruction::ShiftRight(x, y) => x < 16 && y < 16,
        Instruction::SubNegate(x, y) => x < 16 && y < 16,
        Instruction::ShiftLeft(x, y) => x < 16 && y < 16,
        Instruction::SkipNeReg(x, y) => x < 16 && y < 16,
        Instruction::SetIndex(nnn) => nnn < 0x1000,
        Instruction::Draw(x, y, n) => x < 16 && y < 16 && n < 16,
        Instruction::SkipKeyPressed(x) => x < 16,
        Instruction::SkipKeyNotPressed(x) => x < 16,
        Instruction::LoadDelay(x) => x < 16,
        Instruction::WaitKey(x) => x < 16,
        Instruction::SetDelay(x) => x < 16,
        Instruction::SetSound(x) => x < 16,
        Instruction::AddIndex(x) => x < 16,
        Instruction::StoreDigits(x) => x < 16,
        Instruction::StoreRegisters(x) => x < 16,
        Instruction::LoadRegisters(x) => x < 16,
    }
}

/// Every decoded instruction has well-formed fields.
pub proof fn lemma_spec_decode_wf(w: u16)
    ensures
        spec_decode(w) matches Some(ins) ==> instruction_wf(ins),
{
    assert(word_x(w) < 16) by (bit_vector);
    assert(word_y(w) < 16) by (bit_vector);
    assert(word_n(w) < 16) by (bit_vector);
    assert(word_nnn(w) < 0x1000) by (bit_vector);
}

/// Decode one instruction word.
pub fn decode(w: u16) -> (r: Option<Instruction>)
    ensures
        r == spec_decode(w),
        r matches Some(ins) ==> instruction_wf(ins),
{
    proof {
        lemma_spec_decode_wf(w);
    }
    let x = ((w >> 8) & 0xF) as u8;
    let y = ((w >> 4) & 0xF) as u8;
    let n = (w & 0xF) as u8;
    let nn = (w & 0xFF) as u8;
    let nnn = w & 0xFFF;
    match w & 0xF000 {
        0x0000 => match w & 0x000F {
            0x0000 => Some(Instruction::ClearScreen),
            0x000E => Some(Instruction::Return),
            _ => None,
        },
        0x1000 => Some(Instruction::Jump(nnn)),
        0x2000 => Some(Instruction::Call(nnn)),
        0x3000 => Some(Instruction::SkipEqImm(x, nn)),
        0x4000 => Some(Instruction::SkipNeImm(x, nn)),
        0x5000 => Some(Instruction::SkipEqReg(x, y)),
        0x6000 => Some(Instruction::LoadImm(x, nn)),
        0x7000 => Some(Instruction::AddImm(x, nn)),
        0x8000 => match w & 0x000F {
            0x0000 => Some(Instruction::Move(x, y)),
            0x0001 => Some(Instruction::Or(x, y)),
            0x0002 => Some(Instruction::And(x, y)),
            0x0003 => Some(Instruction::Xor(x, y)),
            0x0004 => Some(Instruction::Add(x, y)),
            0x0005 => Some(Instruction::Sub(x, y)),
            0x0006 => Some(Instruction::ShiftRight(x, y)),
            0x0007 => Some(Instruction::SubNegate(x, y)),
            0x000E => Some(Instruction::ShiftLeft(x, y)),
            _ => None,
        },
        0x9000 => Some(Instruction::SkipNeReg(x, y)),
        0xA000 => Some(Instruction::SetIndex(nnn)),
        0xD000 => Some(Instruction::Draw(x, y, n)),
        0xE000 => match w & 0x00FF {
            0x009E => Some(Instruction::SkipKeyPressed(x)),
            0x00A1 => Some(Instruction::SkipKeyNotPressed(x)),
            _ => None,
        },
        0xF000 => match w & 0x00FF {
            0x0007 => Some(Instruction::LoadDelay(x)),
            0x000A => Some(Instruction::WaitKey(x)),
            0x0015 => Some(Instruction::SetDelay(x)),
            0x0018 => Some(Instruction::SetSound(x)),
            0x001E => Some(Instruction::AddIndex(x)),
            0x0033 => Some(Instruction::StoreDigits(x)),
            0x0055 => Some(Instruction::StoreRegisters(x)),
            0x0065 => Some(Instruction::LoadRegisters(x)),
            _ => None,
        },
        _ => None,
    }
}

} // verus!
