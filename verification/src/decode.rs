use vstd::prelude::*;

verus! {

/// A decoded instruction: one variant per opcode pattern of the CHIP-8
/// instruction set, carrying the operand fields the pattern defines.
/// Register indices are the 4-bit `x`/`y` fields, immediates are the 8-bit
/// `kk` and 12-bit `nnn` fields, and a draw height is the 4-bit `n` field.
#[derive(Clone, Copy, Debug, PartialEq, Eq, Structural)]
pub enum Instr {
    /// 00E0: clear the display.
    ClearScreen,
    /// 00EE: pop a return address into the program counter.
    Return,
    /// 1nnn: jump to `nnn`.
    Jump(u16),
    /// 2nnn: push the program counter, then jump to `nnn`.
    Call(u16),
    /// 3xkk: skip the next instruction if Vx == kk.
    SkipEqVal(u8, u8),
    /// 4xkk: skip the next instruction if Vx != kk.
    SkipNeqVal(u8, u8),
    /// 5xy0: skip the next instruction if Vx == Vy.
    SkipEqReg(u8, u8),
    /// 6xkk: Vx := kk.
    SetVal(u8, u8),
    /// 7xkk: Vx := Vx + kk, wrapping, flag untouched.
    AddVal(u8, u8),
    /// 8xy0: Vx := Vy.
    Copy(u8, u8),
    /// 8xy1: Vx := Vx | Vy.
    Or(u8, u8),
    /// 8xy2: Vx := Vx & Vy.
    And(u8, u8),
    /// 8xy3: Vx := Vx ^ Vy.
    Xor(u8, u8),
    /// 8xy4: Vx := Vx + Vy, VF := carry.
    AddReg(u8, u8),
    /// 8xy5: VF := borrow flag, then Vx := Vx - Vy, wrapping.
    SubReg(u8, u8),
    /// 8xy6: VF := low bit of Vx, then Vx := Vx >> 1.
    ShiftRight(u8),
    /// 8xy7: VF := borrow flag, then Vx := Vy - Vx, wrapping.
    SubFrom(u8, u8),
    /// 8xyE: VF := high bit of Vx, then Vx := Vx << 1, wrapping.
    ShiftLeft(u8),
    /// 9xy0: skip the next instruction if Vx != Vy.
    SkipNeqReg(u8, u8),
    /// Annn: I := nnn.
    SetIndex(u16),
    /// Bnnn: jump to nnn + V0.
    JumpOffset(u16),
    /// Cxkk: Vx := random byte & kk.
    Random(u8, u8),
    /// Dxyn: draw the n-row sprite at I to position (Vx, Vy).
    Draw(u8, u8, u8),
    /// Ex9E: skip the next instruction if key Vx is pressed.
    SkipKeyPressed(u8),
    /// ExA1: skip the next instruction if key Vx is not pressed.
    SkipKeyNotPressed(u8),
    /// Fx07: Vx := delay timer.
    ReadDelay(u8),
    /// Fx0A: suspend until a key is pressed, then Vx := that key.
    WaitKey(u8),
    /// Fx15: delay timer := Vx.
    SetDelay(u8),
    /// Fx18: sound timer := Vx.
    SetSound(u8),
    /// Fx1E: I := I + Vx, 16-bit wrapping.
    AddIndex(u8),
    /// Fx29: I := address of the font sprite for digit Vx.
    FontIndex(u8),
    /// Fx33: store the decimal digits of Vx at I, I+1, I+2.
    StoreBcd(u8),
    /// Fx55: store V0..Vx to memory starting at I.
    StoreRegs(u8),
    /// Fx65: load V0..Vx from memory starting at I.
    LoadRegs(u8),
}

/// The `x` register field: bits 8..12 of the instruction word.
pub open spec fn x_of(op: u16) -> u8 {
    ((op >> 8) & 0xF) as u8
}

/// The `y` register field: bits 4..8 of the instruction word.
pub open spec fn y_of(op: u16) -> u8 {
    ((op >> 4) & 0xF) as u8
}

/// The `n` field: the low 4 bits of the instruction word.
pub open spec fn n_of(op: u16) -> u8 {
    (op & 0xF) as u8
}

/// The `kk` immediate: the low 8 bits of the instruction word.
pub open spec fn kk_of(op: u16) -> u8 {
    (op & 0xFF) as u8
}

/// The `nnn` address immediate: the low 12 bits of the instruction word.
pub open spec fn addr_of(op: u16) -> u16 {
    op & 0xFFF
}

/// The operand fields of an instruction word always fit their widths.
pub proof fn lemma_field_bounds(op: u16)
    ensures
        x_of(op) < 16,
        y_of(op) < 16,
        n_of(op) < 16,
        addr_of(op) < 0x1000,
{
    assert(((op >> 8) & 0xF) < 16 && ((op >> 4) & 0xF) < 16 && (op & 0xF) < 16 && (op & 0xFF) < 256
        && (op & 0xFFF) < 0x1000) by (bit_vector);
}

/// The opcode table: which instruction, if any, a 16-bit word encodes.
/// Dispatch is on the top nibble, refined where the pattern fixes further
/// nibbles; a word matching no pattern decodes to `None`.
pub open spec fn decode_spec(op: u16) -> Option<Instr> {
    let h = op >> 12;
    let x = x_of(op);
    let y = y_of(op);
    let n = n_of(op);
    let kk = kk_of(op);
    let nnn = addr_of(op);
    if op == 0x00E0 {
        Some(Instr::ClearScreen)
    } else if op == 0x00EE {
        Some(Instr::Return)
    } else if h == 0x1 {
        Some(Instr::Jump(nnn))
    } else if h == 0x2 {
        Some(Instr::Call(nnn))
    } else if h == 0x3 {
        Some(Instr::SkipEqVal(x, kk))
    } else if h == 0x4 {
        Some(Instr::SkipNeqVal(x, kk))
    } else if h == 0x5 && n == 0x0 {
        Some(Instr::SkipEqReg(x, y))
    } else if h == 0x6 {
        Some(Instr::SetVal(x, kk))
    } else if h == 0x7 {
        Some(Instr::AddVal(x, kk))
    } else if h == 0x8 && n == 0x0 {
        Some(Instr::Copy(x, y))
    } else if h == 0x8 && n == 0x1 {
        Some(Instr::Or(x, y))
    } else if h == 0x8 && n == 0x2 {
        Some(Instr::And(x, y))
    } else if h == 0x8 && n == 0x3 {
        Some(Instr::Xor(x, y))
    } else if h == 0x8 && n == 0x4 {
        Some(Instr::AddReg(x, y))
    } else if h == 0x8 && n == 0x5 {
        Some(Instr::SubReg(x, y))
    } else if h == 0x8 && n == 0x6 {
        Some(Instr::ShiftRight(x))
    } else if h == 0x8 && n == 0x7 {
        Some(Instr::SubFrom(x, y))
    } else if h == 0x8 && n == 0xE {
        Some(Instr::ShiftLeft(x))
    } else if h == 0x9 && n == 0x0 {
        Some(Instr::SkipNeqReg(x, y))
    } else if h == 0xA {
        Some(Instr::SetIndex(nnn))
    } else if h == 0xB {
        Some(Instr::JumpOffset(nnn))
    } else if h == 0xC {
        Some(Instr::Random(x, kk))
    } else if h == 0xD {
        Some(Instr::Draw(x, y, n))
    } else if h == 0xE && kk == 0x9E {
        Some(Instr::SkipKeyPressed(x))
    } else if h == 0xE && kk == 0xA1 {
        Some(Instr::SkipKeyNotPressed(x))
    } else if h == 0xF && kk == 0x07 {
        Some(Instr::ReadDelay(x))
    } else if h == 0xF && kk == 0x0A {
        Some(Instr::WaitKey(x))
    } else if h == 0xF && kk == 0x15 {
        Some(Instr::SetDelay(x))
    } else if h == 0xF && kk == 0x18 {
        Some(Instr::SetSound(x))
    } else if h == 0xF && kk == 0x1E {
        Some(Instr::AddIndex(x))
    } else if h == 0xF && kk == 0x29 {
        Some(Instr::FontIndex(x))
    } else if h == 0xF && kk == 0x33 {
        Some(Instr::StoreBcd(x))
    } else if h == 0xF && kk == 0x55 {
        Some(Instr::StoreRegs(x))
    } else if h == 0xF && kk == 0x65 {
        Some(Instr::LoadRegs(x))
    } else {
        None
    }
}

/// Split an instruction word into its fields and classify it against the
/// opcode table.
pub fn decode(op: u16) -> (r: Option<Instr>)
    ensures
        r == decode_spec(op),
{
    proof {
        lemma_field_bounds(op);
        assert(((op >> 8) & 0xF) < 256 && ((op >> 4) & 0xF) < 256 && (op & 0xF) < 256 && (op & 0xFF)
            < 256) by (bit_vector);
    }
    let h = op >> 12;
    let x = ((op >> 8) & 0xF) as u8;
    let y = ((op >> 4) & 0xF) as u8;
    let n = (op & 0xF) as u8;
    let kk = (op & 0xFF) as u8;
    let nnn = op & 0xFFF;
    if op == 0x00E0 {
        Some(Instr::ClearScreen)
    } else if op == 0x00EE {
        Some(Instr::Return)
    } else if h == 0x1 {
        Some(Instr::Jump(nnn))
    } else if h == 0x2 {
        Some(Instr::Call(nnn))
    } else if h == 0x3 {
        Some(Instr::SkipEqVal(x, kk))
    } else if h == 0x4 {
        Some(Instr::SkipNeqVal(x, kk))
    } else if h == 0x5 && n == 0x0 {
        Some(Instr::SkipEqReg(x, y))
    } else if h == 0x6 {
        Some(Instr::SetVal(x, kk))
    } else if h == 0x7 {
        Some(Instr::AddVal(x, kk))
    } else if h == 0x8 && n == 0x0 {
        Some(Instr::Copy(x, y))
    } else if h == 0x8 && n == 0x1 {
        Some(Instr::Or(x, y))
    } else if h == 0x8 && n == 0x2 {
        Some(Instr::And(x, y))
    } else if h == 0x8 && n == 0x3 {
        Some(Instr::Xor(x, y))
    } else if h == 0x8 && n == 0x4 {
        Some(Instr::AddReg(x, y))
    } else if h == 0x8 && n == 0x5 {
        Some(Instr::SubReg(x, y))
    } else if h == 0x8 && n == 0x6 {
        Some(Instr::ShiftRight(x))
    } else if h == 0x8 && n == 0x7 {
        Some(Instr::SubFrom(x, y))
    } else if h == 0x8 && n == 0xE {
        Some(Instr::ShiftLeft(x))
    } else if h == 0x9 && n == 0x0 {
        Some(Instr::SkipNeqReg(x, y))
    } else if h == 0xA {
        Some(Instr::SetIndex(nnn))
    } else if h == 0xB {
        Some(Instr::JumpOffset(nnn))
    } else if h == 0xC {
        Some(Instr::Random(x, kk))
    } else if h == 0xD {
        Some(Instr::Draw(x, y, n))
    } else if h == 0xE && kk == 0x9E {
        Some(Instr::SkipKeyPressed(x))
    } else if h == 0xE && kk == 0xA1 {
        Some(Instr::SkipKeyNotPressed(x))
    } else if h == 0xF && kk == 0x07 {
        Some(Instr::ReadDelay(x))
    } else if h == 0xF && kk == 0x0A {
        Some(Instr::WaitKey(x))
    } else if h == 0xF && kk == 0x15 {
        Some(Instr::SetDelay(x))
    } else if h == 0xF && kk == 0x18 {
        Some(Instr::SetSound(x))
    } else if h == 0xF && kk == 0x1E {
        Some(Instr::AddIndex(x))
    } else if h == 0xF && kk == 0x29 {
        Some(Instr::FontIndex(x))
    } else if h == 0xF && kk == 0x33 {
        Some(Instr::StoreBcd(x))
    } else if h == 0xF && kk == 0x55 {
        Some(Instr::StoreRegs(x))
    } else if h == 0xF && kk == 0x65 {
        Some(Instr::LoadRegs(x))
    } else {
        None
    }
}

} // verus!
