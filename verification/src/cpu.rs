use vstd::prelude::*;

verus! {

use crate::ErrorKind;
use crate::Fault;
use crate::decode::{Instr, decode, decode_spec, lemma_field_bounds};
use crate::display::{Display, blank_display, blit_rows};
use crate::keypad::{Keypad, first_pressed, lemma_first_pressed_bound};
use crate::ram::{RAM, initial_mem};
use crate::timers::{Timers, ticked};

/// Number of slots in the call stack vector.  The stack holds at most 16
/// live return addresses; the stack pointer counts them and names the slot
/// of the newest one, so slot 0 is never occupied.
pub const STACK_SLOTS: usize = 17;

/// Number of general-purpose registers.
pub const N_VREGISTERS: usize = 16;

/// Index of the flag register VF.
pub const VF: usize = 0xF;

/// Index of the register V0.
pub const V0: usize = 0x0;

/// The mathematical state of the whole machine: every contract of the
/// execution engine is stated over this view.
#[verifier::ext_equal]
pub ghost struct CpuView {
    /// The sixteen general registers V0..=VF.
    pub v_reg: Seq<u8>,
    /// The call stack slots; entries 1..=sp hold live return addresses.
    pub stack: Seq<u16>,
    /// Number of live return addresses, at most 16.
    pub sp: u8,
    /// The 16-bit address register I.
    pub i_reg: u16,
    /// The program counter.
    pub pc: u16,
    /// The delay timer counter.
    pub delay: u8,
    /// The sound timer counter.
    pub sound: u8,
    /// The 4096 memory bytes.
    pub mem: Seq<u8>,
    /// The 64x32 pixel states, row-major.
    pub disp: Seq<bool>,
    /// The sixteen key states.
    pub keys: Seq<bool>,
    /// The register awaiting a key press, when execution is suspended.
    pub waiting: Option<u8>,
}

impl CpuView {
    /// Structural well-formedness of a machine state.
    pub open spec fn wf(self) -> bool {
        &&& self.v_reg.len() == 16
        &&& self.stack.len() == 17
        &&& self.sp <= 16
        &&& self.mem.len() == 4096
        &&& self.disp.len() == 2048
        &&& self.keys.len() == 16
        &&& (self.waiting matches Some(x) ==> x < 16)
    }
}

/// The machine state at power-on and after a reset: everything zeroed, the
/// program counter at `ROM_BASE`, the font table pre-loaded.
pub open spec fn initial_view() -> CpuView {
    CpuView {
        v_reg: Seq::new(16, |i: int| 0u8),
        stack: Seq::new(17, |i: int| 0u16),
        sp: 0u8,
        i_reg: 0u16,
        pc: 0x200u16,
        delay: 0u8,
        sound: 0u8,
        mem: initial_mem(),
        disp: blank_display(),
        keys: Seq::new(16, |i: int| false),
        waiting: None,
    }
}

/// Addition of two registers with 8-bit wraparound.
pub open spec fn wrap_add8(a: u8, b: u8) -> u8 {
    if a + b > 255 {
        (a + b - 256) as u8
    } else {
        (a + b) as u8
    }
}

/// Subtraction of two registers with 8-bit wraparound.
pub open spec fn wrap_sub8(a: u8, b: u8) -> u8 {
    if a - b < 0 {
        (a - b + 256) as u8
    } else {
        (a - b) as u8
    }
}

/// A left shift by one with 8-bit wraparound: the low seven bits doubled.
pub open spec fn wrap_shl8(a: u8) -> u8 {
    if 2 * a > 255 {
        (2 * a - 256) as u8
    } else {
        (2 * a) as u8
    }
}

/// 16-bit wrapping addition, used for the address register and jumps.
pub open spec fn wrap_add16(a: u16, b: u16) -> u16 {
    if a + b > 0xFFFF {
        (a + b - 0x10000) as u16
    } else {
        (a + b) as u16
    }
}

/// The program counter after skipping one 2-byte instruction.
pub open spec fn pc_after_skip(pc: u16) -> u16 {
    wrap_add16(pc, 2)
}

/// A state with register `x` set to `v` and everything else unchanged.
pub open spec fn set_reg(s: CpuView, x: u8, v: u8) -> CpuView {
    CpuView { v_reg: s.v_reg.update(x as int, v), ..s }
}

/// 00E0: the display cleared.
pub open spec fn cls_spec(s: CpuView) -> CpuView {
    CpuView { disp: blank_display(), ..s }
}

/// 00EE: the program counter restored from the top of the stack and the
/// stack pointer lowered; fails with `StackUnderflow` on an empty stack.
pub open spec fn ret_spec(s: CpuView) -> (CpuView, Result<(), ErrorKind>) {
    if s.sp == 0 {
        (s, Err(ErrorKind::StackUnderflow))
    } else {
        (CpuView { pc: s.stack[s.sp as int], sp: (s.sp - 1) as u8, ..s }, Ok(()))
    }
}

/// 2nnn: the program counter pushed and control transferred to `addr`;
/// fails with `StackOverflow` when 16 calls are already live.
pub open spec fn call_spec(s: CpuView, addr: u16) -> (CpuView, Result<(), ErrorKind>) {
    if s.sp >= 16 {
        (s, Err(ErrorKind::StackOverflow))
    } else {
        (
            CpuView {
                sp: (s.sp + 1) as u8,
                stack: s.stack.update(s.sp + 1, s.pc),
                pc: addr,
                ..s
            },
            Ok(()),
        )
    }
}

/// 1nnn: the program counter set to `addr`.
pub open spec fn jmp_spec(s: CpuView, addr: u16) -> CpuView {
    CpuView { pc: addr, ..s }
}

/// The next instruction skipped when `cond` holds.
pub open spec fn skip_if(s: CpuView, cond: bool) -> CpuView {
    CpuView { pc: if cond { pc_after_skip(s.pc) } else { s.pc }, ..s }
}

/// 3xkk.
pub open spec fn skip_eq_val_spec(s: CpuView, x: u8, kk: u8) -> CpuView {
    skip_if(s, s.v_reg[x as int] == kk)
}

/// 4xkk.
pub open spec fn skip_neq_val_spec(s: CpuView, x: u8, kk: u8) -> CpuView {
    skip_if(s, s.v_reg[x as int] != kk)
}

/// 5xy0.
pub open spec fn skip_eq_xy_spec(s: CpuView, x: u8, y: u8) -> CpuView {
    skip_if(s, s.v_reg[x as int] == s.v_reg[y as int])
}

/// 9xy0.
pub open spec fn skip_neq_xy_spec(s: CpuView, x: u8, y: u8) -> CpuView {
    skip_if(s, s.v_reg[x as int] != s.v_reg[y as int])
}

/// 6xkk.
pub open spec fn set_x_value_spec(s: CpuView, x: u8, kk: u8) -> CpuView {
    set_reg(s, x, kk)
}

/// 7xkk: wrapping add of an immediate, the flag untouched.
pub open spec fn add_x_value_spec(s: CpuView, x: u8, kk: u8) -> CpuView {
    set_reg(s, x, wrap_add8(s.v_reg[x as int], kk))
}

/// 8xy0.
pub open spec fn store_xy_spec(s: CpuView, x: u8, y: u8) -> CpuView {
    set_reg(s, x, s.v_reg[y as int])
}

/// 8xy1.
pub open spec fn or_xy_spec(s: CpuView, x: u8, y: u8) -> CpuView {
    set_reg(s, x, s.v_reg[x as int] | s.v_reg[y as int])
}

/// 8xy2.
pub open spec fn and_xy_spec(s: CpuView, x: u8, y: u8) -> CpuView {
    set_reg(s, x, s.v_reg[x as int] & s.v_reg[y as int])
}

/// 8xy3.
pub open spec fn xor_xy_spec(s: CpuView, x: u8, y: u8) -> CpuView {
    set_reg(s, x, s.v_reg[x as int] ^ s.v_reg[y as int])
}

/// 8xy4: VF becomes the carry of the widened sum, then Vx its low byte.
/// Both summands are read before either write, so when `x` is 15 the stored
/// sum wins over the flag.
pub open spec fn add_xy_spec(s: CpuView, x: u8, y: u8) -> CpuView {
    let flag: u8 = if s.v_reg[x as int] + s.v_reg[y as int] > 255 {
        1u8
    } else {
        0u8
    };
    set_reg(set_reg(s, 15, flag), x, wrap_add8(s.v_reg[x as int], s.v_reg[y as int]))
}

/// 8xy5: VF becomes the no-borrow flag first, then Vx the wrapping
/// difference of the registers as they stand after the flag write.
pub open spec fn sub_xy_spec(s: CpuView, x: u8, y: u8) -> CpuView {
    let flag: u8 = if s.v_reg[x as int] > s.v_reg[y as int] {
        1u8
    } else {
        0u8
    };
    let s1 = set_reg(s, 15, flag);
    set_reg(s1, x, wrap_sub8(s1.v_reg[x as int], s1.v_reg[y as int]))
}

/// 8xy7: like 8xy5 with the operands swapped.
pub open spec fn subn_xy_spec(s: CpuView, x: u8, y: u8) -> CpuView {
    let flag: u8 = if s.v_reg[y as int] > s.v_reg[x as int] {
        1u8
    } else {
        0u8
    };
    let s1 = set_reg(s, 15, flag);
    set_reg(s1, x, wrap_sub8(s1.v_reg[y as int], s1.v_reg[x as int]))
}

/// 8xy6: VF becomes the pre-shift low bit of Vx, then Vx is shifted right;
/// the shifted value is read after the flag write.
pub open spec fn shr_x_spec(s: CpuView, x: u8) -> CpuView {
    let s1 = set_reg(s, 15, s.v_reg[x as int] & 1);
    set_reg(s1, x, s1.v_reg[x as int] >> 1)
}

/// 8xyE: VF becomes the pre-shift high bit of Vx, then Vx is shifted left
/// with wraparound; the shifted value is read after the flag write.
pub open spec fn shl_x_spec(s: CpuView, x: u8) -> CpuView {
    let s1 = set_reg(s, 15, s.v_reg[x as int] >> 7);
    set_reg(s1, x, wrap_shl8(s1.v_reg[x as int]))
}

/// Annn.
pub open spec fn set_i_spec(s: CpuView, addr: u16) -> CpuView {
    CpuView { i_reg: addr, ..s }
}

/// Bnnn: jump to `addr` offset by V0.
pub open spec fn jmp_addr_offset_spec(s: CpuView, addr: u16) -> CpuView {
    CpuView { pc: wrap_add16(addr, s.v_reg[0] as u16), ..s }
}

/// Cxkk with the drawn random byte made explicit.
pub open spec fn rnd_spec(s: CpuView, x: u8, kk: u8, rnd: u8) -> CpuView {
    set_reg(s, x, rnd & kk)
}

/// Fx07.
pub open spec fn read_delay_spec(s: CpuView, x: u8) -> CpuView {
    set_reg(s, x, s.delay)
}

/// Fx15.
pub open spec fn set_delay_spec(s: CpuView, x: u8) -> CpuView {
    CpuView { delay: s.v_reg[x as int], ..s }
}

/// Fx18.
pub open spec fn set_sound_spec(s: CpuView, x: u8) -> CpuView {
    CpuView { sound: s.v_reg[x as int], ..s }
}

/// Fx1E: 16-bit wrapping add of Vx into I; no flag is defined.
pub open spec fn add_i_spec(s: CpuView, x: u8) -> CpuView {
    CpuView { i_reg: wrap_add16(s.i_reg, s.v_reg[x as int] as u16), ..s }
}

/// Fx29: I pointed at the five-byte font sprite of digit Vx.
pub open spec fn set_i_digit_spec(s: CpuView, x: u8) -> CpuView {
    CpuView { i_reg: (0x50 + 5 * s.v_reg[x as int]) as u16, ..s }
}

/// Fx0A: execution suspended until a key press, with Vx the destination.
pub open spec fn wait_key_spec(s: CpuView, x: u8) -> CpuView {
    CpuView { waiting: Some(x), ..s }
}

/// The key code named by Vx: its low nibble.
pub open spec fn key_of(s: CpuView, x: u8) -> u8 {
    s.v_reg[x as int] & 0xF
}

/// Ex9E.
pub open spec fn skip_key_pressed_spec(s: CpuView, x: u8) -> CpuView {
    skip_if(s, s.keys[key_of(s, x) as int])
}

/// ExA1.
pub open spec fn skip_key_not_pressed_spec(s: CpuView, x: u8) -> CpuView {
    skip_if(s, !s.keys[key_of(s, x) as int])
}

/// Fx33: the three decimal digits of Vx stored at I, I+1, I+2; fails like a
/// memory write would, leaving the state unchanged.
pub open spec fn store_bcd_spec(s: CpuView, x: u8) -> (CpuView, Result<(), ErrorKind>) {
    if s.i_reg < 0x200 {
        (s, Err(ErrorKind::ProtectedRegionViolation))
    } else if s.i_reg + 2 >= 4096 {
        (s, Err(ErrorKind::OutOfBounds))
    } else {
        let v = s.v_reg[x as int];
        let i = s.i_reg as int;
        (
            CpuView {
                mem: s.mem.update(i, (v / 100) as u8).update(i + 1, ((v / 10) % 10) as u8).update(
                    i + 2,
                    (v % 10) as u8,
                ),
                ..s
            },
            Ok(()),
        )
    }
}

/// Fx55: V0..=Vx stored to memory at I; validated before any byte is
/// written, so a failure leaves memory unchanged.
pub open spec fn store_regs_spec(s: CpuView, x: u8) -> (CpuView, Result<(), ErrorKind>) {
    if s.i_reg < 0x200 {
        (s, Err(ErrorKind::ProtectedRegionViolation))
    } else if s.i_reg + x >= 4096 {
        (s, Err(ErrorKind::OutOfBounds))
    } else {
        (
            CpuView {
                mem: Seq::new(
                    4096,
                    |k: int|
                        if s.i_reg <= k <= s.i_reg + x {
                            s.v_reg[k - s.i_reg]
                        } else {
                            s.mem[k]
                        },
                ),
                ..s
            },
            Ok(()),
        )
    }
}

/// Fx65: V0..=Vx loaded from memory at I; reads are not subject to the
/// protected region, only to the address space bound.
pub open spec fn read_regs_spec(s: CpuView, x: u8) -> (CpuView, Result<(), ErrorKind>) {
    if s.i_reg + x >= 4096 {
        (s, Err(ErrorKind::OutOfBounds))
    } else {
        (
            CpuView {
                v_reg: Seq::new(
                    16,
                    |r: int|
                        if 0 <= r <= x {
                            s.mem[s.i_reg + r]
                        } else {
                            s.v_reg[r]
                        },
                ),
                ..s
            },
            Ok(()),
        )
    }
}

/// Dxyn: the n sprite rows at I XOR-blitted to position (Vx, Vy), VF set to
/// the collision flag.  A zero-height draw touches nothing and clears VF;
/// otherwise all n rows must lie inside memory or the draw fails whole.
pub open spec fn draw_spec(s: CpuView, x: u8, y: u8, n: u8) -> (CpuView, Result<(), ErrorKind>) {
    if n == 0 {
        (CpuView { v_reg: s.v_reg.update(15, 0u8), ..s }, Ok(()))
    } else if s.i_reg + n > 4096 {
        (s, Err(ErrorKind::OutOfBounds))
    } else {
        let rows = s.mem.subrange(s.i_reg as int, s.i_reg + n);
        let b = blit_rows(s.disp, rows, s.v_reg[x as int], s.v_reg[y as int]);
        (
            CpuView {
                disp: b.0,
                v_reg: s.v_reg.update(15, if b.1 { 1u8 } else { 0u8 }),
                ..s
            },
            Ok(()),
        )
    }
}

/// One 60 Hz tick of both timers.
pub open spec fn tick_timers_spec(s: CpuView) -> CpuView {
    CpuView { delay: ticked(s.delay), sound: ticked(s.sound), ..s }
}

/// The register file read: fails with `InvalidRegister` above index 15.
pub open spec fn reg_get_spec(s: CpuView, index: u8) -> Result<u8, ErrorKind> {
    if index > 15 {
        Err(ErrorKind::InvalidRegister)
    } else {
        Ok(s.v_reg[index as int])
    }
}

/// The register file write: fails with `InvalidRegister` above index 15.
pub open spec fn reg_set_spec(s: CpuView, index: u8, value: u8) -> (CpuView, Result<
    (),
    ErrorKind,
>) {
    if index > 15 {
        (s, Err(ErrorKind::InvalidRegister))
    } else {
        (set_reg(s, index, value), Ok(()))
    }
}

/// The effect of one decoded instruction on the machine state, with the
/// byte a Cxkk opcode would draw made an explicit parameter; every other
/// instruction ignores it.
pub open spec fn exec_instr_spec(s: CpuView, i: Instr, rnd: u8) -> (CpuView, Result<
    (),
    ErrorKind,
>) {
    match i {
        Instr::ClearScreen => (cls_spec(s), Ok(())),
        Instr::Return => ret_spec(s),
        Instr::Jump(a) => (jmp_spec(s, a), Ok(())),
        Instr::Call(a) => call_spec(s, a),
        Instr::SkipEqVal(x, kk) => (skip_eq_val_spec(s, x, kk), Ok(())),
        Instr::SkipNeqVal(x, kk) => (skip_neq_val_spec(s, x, kk), Ok(())),
        Instr::SkipEqReg(x, y) => (skip_eq_xy_spec(s, x, y), Ok(())),
        Instr::SetVal(x, kk) => (set_x_value_spec(s, x, kk), Ok(())),
        Instr::AddVal(x, kk) => (add_x_value_spec(s, x, kk), Ok(())),
        Instr::Copy(x, y) => (store_xy_spec(s, x, y), Ok(())),
        Instr::Or(x, y) => (or_xy_spec(s, x, y), Ok(())),
        Instr::And(x, y) => (and_xy_spec(s, x, y), Ok(())),
        Instr::Xor(x, y) => (xor_xy_spec(s, x, y), Ok(())),
        Instr::AddReg(x, y) => (add_xy_spec(s, x, y), Ok(())),
        Instr::SubReg(x, y) => (sub_xy_spec(s, x, y), Ok(())),
        Instr::ShiftRight(x) => (shr_x_spec(s, x), Ok(())),
        Instr::SubFrom(x, y) => (subn_xy_spec(s, x, y), Ok(())),
        Instr::ShiftLeft(x) => (shl_x_spec(s, x), Ok(())),
        Instr::SkipNeqReg(x, y) => (skip_neq_xy_spec(s, x, y), Ok(())),
        Instr::SetIndex(a) => (set_i_spec(s, a), Ok(())),
        Instr::JumpOffset(a) => (jmp_addr_offset_spec(s, a), Ok(())),
        Instr::Random(x, kk) => (rnd_spec(s, x, kk, rnd), Ok(())),
        Instr::Draw(x, y, n) => draw_spec(s, x, y, n),
        Instr::SkipKeyPressed(x) => (skip_key_pressed_spec(s, x), Ok(())),
        Instr::SkipKeyNotPressed(x) => (skip_key_not_pressed_spec(s, x), Ok(())),
        Instr::ReadDelay(x) => (read_delay_spec(s, x), Ok(())),
        Instr::WaitKey(x) => (wait_key_spec(s, x), Ok(())),
        Instr::SetDelay(x) => (set_delay_spec(s, x), Ok(())),
        Instr::SetSound(x) => (set_sound_spec(s, x), Ok(())),
        Instr::AddIndex(x) => (add_i_spec(s, x), Ok(())),
        Instr::FontIndex(x) => (set_i_digit_spec(s, x), Ok(())),
        Instr::StoreBcd(x) => store_bcd_spec(s, x),
        Instr::StoreRegs(x) => store_regs_spec(s, x),
        Instr::LoadRegs(x) => read_regs_spec(s, x),
    }
}

/// The effect of dispatching one instruction word: decode it against the
/// opcode table, then apply its semantics; a word with no pattern is a
/// fatal `UnknownOpcode` that changes nothing.
pub open spec fn cycle_spec(s: CpuView, opcode: u16, rnd: u8) -> (CpuView, Result<
    (),
    ErrorKind,
>) {
    match decode_spec(opcode) {
        None => (s, Err(ErrorKind::UnknownOpcode)),
        Some(i) => exec_instr_spec(s, i, rnd),
    }
}

/// Whether an instruction word decodes to the random opcode Cxkk.
pub open spec fn is_random_op(opcode: u16) -> bool {
    decode_spec(opcode) matches Some(Instr::Random(_, _))
}

/// The big-endian instruction word at the program counter.
pub open spec fn fetch_op(s: CpuView) -> u16 {
    (s.mem[s.pc as int] * 256 + s.mem[s.pc as int + 1]) as u16
}

/// One execution step.  A machine suspended on Fx0A only polls the keypad:
/// with no key down, nothing changes; with a key down, the lowest pressed
/// key code lands in the awaited register and the suspension ends, the
/// program counter untouched either way.  A running machine fetches the
/// word at the program counter (failing with `OutOfBounds` if the two
/// bytes do not fit below 4096), advances the counter by two, and
/// dispatches the word; a dispatch error is reported with the pc and
/// opcode of the offending instruction.
pub open spec fn step_spec(s: CpuView, rnd: u8) -> (CpuView, Result<(), Fault>) {
    match s.waiting {
        Some(x) => match first_pressed(s.keys) {
            Some(k) => (
                CpuView { v_reg: s.v_reg.update(x as int, k), waiting: None, ..s },
                Ok(()),
            ),
            None => (s, Ok(())),
        },
        None => {
            if s.pc + 1 >= 4096 {
                (s, Err(Fault { kind: ErrorKind::OutOfBounds, pc: s.pc, opcode: 0 }))
            } else {
                let op = fetch_op(s);
                let s1 = CpuView { pc: (s.pc + 2) as u16, ..s };
                let c = cycle_spec(s1, op, rnd);
                (
                    c.0,
                    match c.1 {
                        Ok(()) => Ok(()),
                        Err(k) => Err(Fault { kind: k, pc: s.pc, opcode: op }),
                    },
                )
            }
        },
    }
}

/// Whether a step from state `s` would dispatch the random opcode.
pub open spec fn step_consumes_random(s: CpuView) -> bool {
    s.waiting is None && s.pc + 1 < 4096 && is_random_op(fetch_op(s))
}

/// Draw a byte from the thread-local random generator, for the Cxkk opcode.
///
/// Relies on rand::random: a uniformly distributed `u8` from the
/// thread-local generator.  Nothing is promised of its value; every caller
/// states what holds of any byte that may come back.
#[verifier::external_body]
fn random_byte() -> u8 {
    rand::random::<u8>()
}

/// The CHIP-8 execution engine: the whole machine state plus the opcode
/// semantics that mutate it.
pub struct CPU {
    /// Call stack slots; see `STACK_SLOTS` for the occupancy convention.
    pub stack: Vec<u16>,
    /// The sixteen general registers V0..=VF.
    pub v_reg: Vec<u8>,
    /// The 16-bit address register I.
    pub i_reg: u16,
    /// The delay and sound timers.
    pub timers: Timers,
    /// Address of the next instruction to fetch.
    pub program_counter: u16,
    /// Number of live return addresses on the stack.
    pub stack_pointer: u8,
    /// The 4096-byte memory.
    pub ram: RAM,
    /// The monochrome display buffer.
    pub display: Display,
    /// The sixteen key states.
    pub keypad: Keypad,
    /// When a Fx0A opcode is pending, the register that receives the key.
    pub waiting: Option<u8>,
}

impl View for CPU {
    type V = CpuView;

    open spec fn view(&self) -> CpuView {
        CpuView {
            v_reg: self.v_reg@,
            stack: self.stack@,
            sp: self.stack_pointer,
            i_reg: self.i_reg,
            pc: self.program_counter,
            delay: self.timers.delay,
            sound: self.timers.sound,
            mem: self.ram@,
            disp: self.display@,
            keys: self.keypad@,
            waiting: self.waiting,
        }
    }
}

impl CPU {
    /// Structural well-formedness, preserved by every operation.
    pub open spec fn wf(&self) -> bool {
        self@.wf()
    }

    /// Create a machine in the power-on state: everything zeroed, the
    /// program counter at the ROM base, the font table pre-loaded.
    pub fn new() -> (r: CPU)
        ensures
            r.wf(),
            r@ == initial_view(),
    {
        let mut stack: Vec<u16> = Vec::new();
        let mut i: usize = 0;
        while i < STACK_SLOTS
            invariant
                i <= 17,
                stack@.len() == i,
                forall|k: int| 0 <= k < i ==> stack@[k] == 0u16,
            decreases 17 - i,
        {
            stack.push(0);
            i += 1;
        }
        let mut v_reg: Vec<u8> = Vec::new();
        let mut j: usize = 0;
        while j < N_VREGISTERS
            invariant
                j <= 16,
                v_reg@.len() == j,
                forall|k: int| 0 <= k < j ==> v_reg@[k] == 0u8,
            decreases 16 - j,
        {
            v_reg.push(0);
            j += 1;
        }
        let r = CPU {
            stack,
            v_reg,
            i_reg: 0,
            timers: Timers::new(),
            program_counter: 0x200,
            stack_pointer: 0,
            ram: RAM::new(),
            display: Display::new(),
            keypad: Keypad::new(),
            waiting: None,
        };
        proof {
            assert(r@.v_reg =~= initial_view().v_reg);
            assert(r@.stack =~= initial_view().stack);
            assert(r@.keys =~= initial_view().keys);
            assert(r@ =~= initial_view());
        }
        r
    }

    /// Re-zero all mutable state and reload the font table, atomically
    /// returning the machine to the power-on state.
    pub fn reset(&mut self)
        ensures
            final(self).wf(),
            final(self)@ == initial_view(),
    {
        *self = CPU::new();
    }

    /// Copy a ROM image into memory starting at the ROM base; fails with
    /// `RomTooLarge`, changing nothing, when the image does not fit.
    pub fn load_rom(&mut self, rom: &Vec<u8>) -> (r: Result<(), ErrorKind>)
        requires
            old(self).wf(),
        ensures
            final(self).wf(),
            rom@.len() > 3584 ==> r == Err::<(), ErrorKind>(ErrorKind::RomTooLarge)
                && final(self)@ == old(self)@,
            rom@.len() <= 3584 ==> r == Ok::<(), ErrorKind>(()) && final(self)@ == (CpuView {
                mem: Seq::new(
                    4096,
                    |k: int|
                        if 0x200 <= k < 0x200 + rom@.len() {
                            rom@[k - 0x200]
                        } else {
                            old(self)@.mem[k]
                        },
                ),
                ..old(self)@
            }),
    {
        let res = self.ram.load_rom(rom);
        proof {
            if rom@.len() <= 3584 {
                assert(self@.mem =~= Seq::new(
                    4096,
                    |k: int|
                        if 0x200 <= k < 0x200 + rom@.len() {
                            rom@[k - 0x200]
                        } else {
                            old(self)@.mem[k]
                        },
                ));
            }
        }
        res
    }

    /// Read general register `index`, as the register file operation.
    pub fn get(&self, index: u8) -> (r: Result<u8, ErrorKind>)
        requires
            self.wf(),
        ensures
            r == reg_get_spec(self@, index),
    {
        if index > 15 {
            Err(ErrorKind::InvalidRegister)
        } else {
            Ok(self.v_reg[index as usize])
        }
    }

    /// Write general register `index`, as the register file operation.
    pub fn set(&mut self, index: u8, value: u8) -> (r: Result<(), ErrorKind>)
        requires
            old(self).wf(),
        ensures
            final(self).wf(),
            (final(self)@, r) == reg_set_spec(old(self)@, index, value),
    {
        if index > 15 {
            Err(ErrorKind::InvalidRegister)
        } else {
            self.v_reg.set(index as usize, value);
            Ok(())
        }
    }

    /// Current value of the address register I.
    pub fn get_i(&self) -> (r: u16)
        ensures
            r == self@.i_reg,
    {
        self.i_reg
    }

    /// Decrement both timers once, saturating at zero; driven by the
    /// external 60 Hz clock, independently of `step`.
    pub fn tick_timers(&mut self)
        requires
            old(self).wf(),
        ensures
            final(self).wf(),
            final(self)@ == tick_timers_spec(old(self)@),
    {
        self.timers.tick();
    }

    /// Return from a subroutine (00EE): restore the program counter from
    /// the top of the stack, then lower the stack pointer.
    pub fn ret_subroutine(&mut self) -> (r: Result<(), ErrorKind>)
        requires
            old(self).wf(),
        ensures
            final(self).wf(),
            (final(self)@, r) == ret_spec(old(self)@),
    {
        if self.stack_pointer == 0 {
            return Err(ErrorKind::StackUnderflow);
        }
        self.program_counter = self.stack[self.stack_pointer as usize];
        self.stack_pointer = self.stack_pointer - 1;
        Ok(())
    }

    /// Jump (1nnn): set the program counter to `addr`.
    pub fn jmp_addr(&mut self, addr: u16)
        requires
            old(self).wf(),
        ensures
            final(self).wf(),
            final(self)@ == jmp_spec(old(self)@, addr),
    {
        self.program_counter = addr;
    }

    /// Call a subroutine (2nnn): raise the stack pointer, save the program
    /// counter in the newly occupied slot, then jump to `addr`.
    pub fn call_subroutine(&mut self, addr: u16) -> (r: Result<(), ErrorKind>)
        requires
            old(self).wf(),
        ensures
            final(self).wf(),
            (final(self)@, r) == call_spec(old(self)@, addr),
    {
        if self.stack_pointer >= 16 {
            return Err(ErrorKind::StackOverflow);
        }
        self.stack_pointer = self.stack_pointer + 1;
        self.stack.set(self.stack_pointer as usize, self.program_counter);
        self.program_counter = addr;
        Ok(())
    }

    /// 3xkk: skip the next instruction if Vx equals `value`.
    pub fn skip_eq_value(&mut self, x_idx: u8, value: u8)
        requires
            old(self).wf(),
            x_idx < 16,
        ensures
            final(self).wf(),
            final(self)@ == skip_eq_val_spec(old(self)@, x_idx, value),
    {
        if self.v_reg[x_idx as usize] == value {
            self.program_counter = self.program_counter.wrapping_add(2);
        }
    }

    /// 4xkk: skip the next instruction if Vx differs from `value`.
    pub fn skip_neq_value(&mut self, x_idx: u8, value: u8)
        requires
            old(self).wf(),
            x_idx < 16,
        ensures
            final(self).wf(),
            final(self)@ == skip_neq_val_spec(old(self)@, x_idx, value),
    {
        if self.v_reg[x_idx as usize] != value {
            self.program_counter = self.program_counter.wrapping_add(2);
        }
    }

    /// 5xy0: skip the next instruction if Vx equals Vy.
    pub fn skip_eq_xy(&mut self, x_idx: u8, y_idx: u8)
        requires
            old(self).wf(),
            x_idx < 16,
            y_idx < 16,
        ensures
            final(self).wf(),
            final(self)@ == skip_eq_xy_spec(old(self)@, x_idx, y_idx),
    {
        if self.v_reg[x_idx as usize] == self.v_reg[y_idx as usize] {
            self.program_counter = self.program_counter.wrapping_add(2);
        }
    }

    /// 9xy0: skip the next instruction if Vx differs from Vy.
    pub fn skip_neq_xy(&mut self, x_idx: u8, y_idx: u8)
        requires
            old(self).wf(),
            x_idx < 16,
            y_idx < 16,
        ensures
            final(self).wf(),
            final(self)@ == skip_neq_xy_spec(old(self)@, x_idx, y_idx),
    {
        if self.v_reg[x_idx as usize] != self.v_reg[y_idx as usize] {
            self.program_counter = self.program_counter.wrapping_add(2);
        }
    }

    /// 6xkk: set Vx to `value`.
    pub fn set_x_value(&mut self, x_idx: u8, value: u8)
        requires
            old(self).wf(),
            x_idx < 16,
        ensures
            final(self).wf(),
            final(self)@ == set_x_value_spec(old(self)@, x_idx, value),
    {
        self.v_reg.set(x_idx as usize, value);
    }

    /// 7xkk: add `value` to Vx with 8-bit wraparound; the flag register is
    /// not involved.
    pub fn add_x_value(&mut self, x_idx: u8, value: u8)
        requires
            old(self).wf(),
            x_idx < 16,
        ensures
            final(self).wf(),
            final(self)@ == add_x_value_spec(old(self)@, x_idx, value),
    {
        let v = self.v_reg[x_idx as usize];
        self.v_reg.set(x_idx as usize, v.wrapping_add(value));
    }

    /// 8xy0: copy Vy into Vx.
    pub fn store_xy(&mut self, x_idx: u8, y_idx: u8)
        requires
            old(self).wf(),
            x_idx < 16,
            y_idx < 16,
        ensures
            final(self).wf(),
            final(self)@ == store_xy_spec(old(self)@, x_idx, y_idx),
    {
        let v = self.v_reg[y_idx as usize];
        self.v_reg.set(x_idx as usize, v);
    }

    /// 8xy1: bitwise OR of Vx and Vy into Vx.
    pub fn or_xy(&mut self, x_idx: u8, y_idx: u8)
        requires
            old(self).wf(),
            x_idx < 16,
            y_idx < 16,
        ensures
            final(self).wf(),
            final(self)@ == or_xy_spec(old(self)@, x_idx, y_idx),
    {
        let v = self.v_reg[x_idx as usize] | self.v_reg[y_idx as usize];
        self.v_reg.set(x_idx as usize, v);
    }

    /// 8xy2: bitwise AND of Vx and Vy into Vx.
    pub fn and_xy(&mut self, x_idx: u8, y_idx: u8)
        requires
            old(self).wf(),
            x_idx < 16,
            y_idx < 16,
        ensures
            final(self).wf(),
            final(self)@ == and_xy_spec(old(self)@, x_idx, y_idx),
    {
        let v = self.v_reg[x_idx as usize] & self.v_reg[y_idx as usize];
        self.v_reg.set(x_idx as usize, v);
    }

    /// 8xy3: bitwise XOR of Vx and Vy into Vx.
    pub fn xor_xy(&mut self, x_idx: u8, y_idx: u8)
        requires
            old(self).wf(),
            x_idx < 16,
            y_idx < 16,
        ensures
            final(self).wf(),
            final(self)@ == xor_xy_spec(old(self)@, x_idx, y_idx),
    {
        let v = self.v_reg[x_idx as usize] ^ self.v_reg[y_idx as usize];
        self.v_reg.set(x_idx as usize, v);
    }

    /// 8xy4: add Vy to Vx; VF records the carry out of eight bits.
    pub fn add_xy(&mut self, x_idx: u8, y_idx: u8)
        requires
            old(self).wf(),
            x_idx < 16,
            y_idx < 16,
        ensures
            final(self).wf(),
            final(self)@ == add_xy_spec(old(self)@, x_idx, y_idx),
    {
        let vx = self.v_reg[x_idx as usize];
        let vy = self.v_reg[y_idx as usize];
        let sum = vx as u16 + vy as u16;
        if sum > 255 {
            self.v_reg.set(VF, 1);
        } else {
            self.v_reg.set(VF, 0);
        }
        self.v_reg.set(x_idx as usize, vx.wrapping_add(vy));
    }

    /// 8xy5: subtract Vy from Vx with wraparound; VF records Vx > Vy.
    pub fn sub_xy(&mut self, x_idx: u8, y_idx: u8)
        requires
            old(self).wf(),
            x_idx < 16,
            y_idx < 16,
        ensures
            final(self).wf(),
            final(self)@ == sub_xy_spec(old(self)@, x_idx, y_idx),
    {
        if self.v_reg[x_idx as usize] > self.v_reg[y_idx as usize] {
            self.v_reg.set(VF, 1);
        } else {
            self.v_reg.set(VF, 0);
        }
        let vx = self.v_reg[x_idx as usize];
        let vy = self.v_reg[y_idx as usize];
        self.v_reg.set(x_idx as usize, vx.wrapping_sub(vy));
    }

    /// 8xy7: store Vy minus Vx into Vx with wraparound; VF records Vy > Vx.
    pub fn subn_xy(&mut self, x_idx: u8, y_idx: u8)
        requires
            old(self).wf(),
            x_idx < 16,
            y_idx < 16,
        ensures
            final(self).wf(),
            final(self)@ == subn_xy_spec(old(self)@, x_idx, y_idx),
    {
        if self.v_reg[y_idx as usize] > self.v_reg[x_idx as usize] {
            self.v_reg.set(VF, 1);
        } else {
            self.v_reg.set(VF, 0);
        }
        let vx = self.v_reg[x_idx as usize];
        let vy = self.v_reg[y_idx as usize];
        self.v_reg.set(x_idx as usize, vy.wrapping_sub(vx));
    }

    /// 8xy6: shift Vx right by one; VF records the bit shifted out.
    pub fn shr_x(&mut self, x_idx: u8)
        requires
            old(self).wf(),
            x_idx < 16,
        ensures
            final(self).wf(),
            final(self)@ == shr_x_spec(old(self)@, x_idx),
    {
        let low = self.v_reg[x_idx as usize] & 0x1;
        self.v_reg.set(VF, low);
        let v = self.v_reg[x_idx as usize];
        self.v_reg.set(x_idx as usize, v >> 1u8);
    }

    /// 8xyE: shift Vx left by one with wraparound; VF records the bit
    /// shifted out.
    pub fn shl_x(&mut self, x_idx: u8)
        requires
            old(self).wf(),
            x_idx < 16,
        ensures
            final(self).wf(),
            final(self)@ == shl_x_spec(old(self)@, x_idx),
    {
        let high = self.v_reg[x_idx as usize] >> 7u8;
        self.v_reg.set(VF, high);
        let v = self.v_reg[x_idx as usize];
        let doubled = if v >= 128 {
            ((v as u16) * 2 - 256) as u8
        } else {
            v * 2
        };
        self.v_reg.set(x_idx as usize, doubled);
    }

    /// Annn: set the address register I.
    pub fn set_i(&mut self, addr: u16)
        requires
            old(self).wf(),
        ensures
            final(self).wf(),
            final(self)@ == set_i_spec(old(self)@, addr),
    {
        self.i_reg = addr;
    }

    /// Bnnn: jump to `addr` offset by V0.
    pub fn jmp_addr_offset(&mut self, addr: u16)
        requires
            old(self).wf(),
        ensures
            final(self).wf(),
            final(self)@ == jmp_addr_offset_spec(old(self)@, addr),
    {
        let v0 = self.v_reg[V0];
        self.program_counter = addr.wrapping_add(v0 as u16);
    }

    /// Cxkk with the random byte passed in: store `rnd & value` into Vx.
    pub fn rnd_and_with(&mut self, x_idx: u8, value: u8, rnd: u8)
        requires
            old(self).wf(),
            x_idx < 16,
        ensures
            final(self).wf(),
            final(self)@ == rnd_spec(old(self)@, x_idx, value, rnd),
    {
        self.v_reg.set(x_idx as usize, rnd & value);
    }

    /// Cxkk: draw a random byte, mask it with `value`, store it into Vx.
    /// Whatever byte the generator yields, the masked result lands in Vx
    /// and nothing else changes.
    pub fn rnd_and(&mut self, x_idx: u8, value: u8)
        requires
            old(self).wf(),
            x_idx < 16,
        ensures
            final(self).wf(),
            exists|rnd: u8| final(self)@ == rnd_spec(old(self)@, x_idx, value, rnd),
    {
        let rnd = random_byte();
        self.rnd_and_with(x_idx, value, rnd);
        proof {
            assert(final(self)@ == rnd_spec(old(self)@, x_idx, value, rnd));
        }
    }

    /// Ex9E: skip the next instruction if the key named by Vx is pressed.
    pub fn skip_key_pressed(&mut self, x_idx: u8)
        requires
            old(self).wf(),
            x_idx < 16,
        ensures
            final(self).wf(),
            final(self)@ == skip_key_pressed_spec(old(self)@, x_idx),
    {
        let vx = self.v_reg[x_idx as usize];
        let key = vx & 0xF;
        proof {
            assert(vx & 0xFu8 < 16) by (bit_vector);
        }
        if self.keypad.is_pressed(key) {
            self.program_counter = self.program_counter.wrapping_add(2);
        }
    }

    /// ExA1: skip the next instruction if the key named by Vx is not
    /// pressed.
    pub fn skip_key_not_pressed(&mut self, x_idx: u8)
        requires
            old(self).wf(),
            x_idx < 16,
        ensures
            final(self).wf(),
            final(self)@ == skip_key_not_pressed_spec(old(self)@, x_idx),
    {
        let vx = self.v_reg[x_idx as usize];
        let key = vx & 0xF;
        proof {
            assert(vx & 0xFu8 < 16) by (bit_vector);
        }
        if !self.keypad.is_pressed(key) {
            self.program_counter = self.program_counter.wrapping_add(2);
        }
    }

    /// Fx07: read the delay timer into Vx.
    pub fn read_delay_timer(&mut self, x_idx: u8)
        requires
            old(self).wf(),
            x_idx < 16,
        ensures
            final(self).wf(),
            final(self)@ == read_delay_spec(old(self)@, x_idx),
    {
        let d = self.timers.delay_value();
        self.v_reg.set(x_idx as usize, d);
    }

    /// Fx0A: suspend instruction progression until a key is pressed; Vx
    /// will receive the key code when execution resumes.
    pub fn wait_keypress(&mut self, x_idx: u8)
        requires
            old(self).wf(),
            x_idx < 16,
        ensures
            final(self).wf(),
            final(self)@ == wait_key_spec(old(self)@, x_idx),
    {
        self.waiting = Some(x_idx);
    }

    /// Fx15: load Vx into the delay timer.
    pub fn set_delay_timer(&mut self, x_idx: u8)
        requires
            old(self).wf(),
            x_idx < 16,
        ensures
            final(self).wf(),
            final(self)@ == set_delay_spec(old(self)@, x_idx),
    {
        let v = self.v_reg[x_idx as usize];
        self.timers.set_delay(v);
    }

    /// Fx18: load Vx into the sound timer.
    pub fn set_sound_timer(&mut self, x_idx: u8)
        requires
            old(self).wf(),
            x_idx < 16,
        ensures
            final(self).wf(),
            final(self)@ == set_sound_spec(old(self)@, x_idx),
    {
        let v = self.v_reg[x_idx as usize];
        self.timers.set_sound(v);
    }

    /// Fx1E: add Vx into the address register I, 16-bit wrapping.
    pub fn add_i(&mut self, x_idx: u8)
        requires
            old(self).wf(),
            x_idx < 16,
        ensures
            final(self).wf(),
            final(self)@ == add_i_spec(old(self)@, x_idx),
    {
        let v = self.v_reg[x_idx as usize];
        self.i_reg = self.i_reg.wrapping_add(v as u16);
    }

    /// Fx29: point I at the font sprite for the hexadecimal digit Vx.
    pub fn set_i_digit(&mut self, x_idx: u8)
        requires
            old(self).wf(),
            x_idx < 16,
        ensures
            final(self).wf(),
            final(self)@ == set_i_digit_spec(old(self)@, x_idx),
    {
        let v = self.v_reg[x_idx as usize];
        self.i_reg = 0x50 + 5 * (v as u16);
    }

    /// Fx33: store the hundreds, tens and ones digits of Vx at I, I+1 and
    /// I+2; validated up front, so a failure changes nothing.
    pub fn store_bcd(&mut self, x_idx: u8) -> (r: Result<(), ErrorKind>)
        requires
            old(self).wf(),
            x_idx < 16,
        ensures
            final(self).wf(),
            (final(self)@, r) == store_bcd_spec(old(self)@, x_idx),
    {
        let i = self.i_reg as usize;
        if i < 0x200 {
            return Err(ErrorKind::ProtectedRegionViolation);
        }
        if i + 2 >= 4096 {
            return Err(ErrorKind::OutOfBounds);
        }
        let v = self.v_reg[x_idx as usize];
        self.ram.put_byte(i, v / 100);
        self.ram.put_byte(i + 1, (v / 10) % 10);
        self.ram.put_byte(i + 2, v % 10);
        Ok(())
    }

    /// Fx55: store registers V0..=Vx to memory starting at I; validated up
    /// front, so a failure changes nothing.
    pub fn store_registers(&mut self, x_idx: u8) -> (r: Result<(), ErrorKind>)
        requires
            old(self).wf(),
            x_idx < 16,
        ensures
            final(self).wf(),
            (final(self)@, r) == store_regs_spec(old(self)@, x_idx),
    {
        let i = self.i_reg as usize;
        if i < 0x200 {
            return Err(ErrorKind::ProtectedRegionViolation);
        }
        if i + x_idx as usize >= 4096 {
            return Err(ErrorKind::OutOfBounds);
        }
        let mut idx: usize = 0;
        while idx <= x_idx as usize
            invariant
                old(self).wf(),
                x_idx < 16,
                i == old(self)@.i_reg,
                0x200 <= i,
                i + x_idx < 4096,
                idx <= x_idx + 1,
                self.wf(),
                self@.v_reg == old(self)@.v_reg,
                self@.stack == old(self)@.stack,
                self@.sp == old(self)@.sp,
                self@.i_reg == old(self)@.i_reg,
                self@.pc == old(self)@.pc,
                self@.delay == old(self)@.delay,
                self@.sound == old(self)@.sound,
                self@.disp == old(self)@.disp,
                self@.keys == old(self)@.keys,
                self@.waiting == old(self)@.waiting,
                forall|k: int| i <= k < i + idx ==> self@.mem[k] == old(self)@.v_reg[k - i],
                forall|k: int|
                    0 <= k < 4096 && !(i <= k < i + idx) ==> self@.mem[k] == old(self)@.mem[k],
            decreases x_idx + 1 - idx,
        {
            let v = self.v_reg[idx];
            self.ram.put_byte(i + idx, v);
            idx += 1;
        }
        proof {
            let target = store_regs_spec(old(self)@, x_idx);
            assert(self@.mem =~= target.0.mem);
            assert(self@ =~= target.0);
        }
        Ok(())
    }

    /// Fx65: load registers V0..=Vx from memory starting at I; validated up
    /// front, so a failure changes nothing.
    pub fn read_registers(&mut self, x_idx: u8) -> (r: Result<(), ErrorKind>)
        requires
            old(self).wf(),
            x_idx < 16,
        ensures
            final(self).wf(),
            (final(self)@, r) == read_regs_spec(old(self)@, x_idx),
    {
        let i = self.i_reg as usize;
        if i + x_idx as usize >= 4096 {
            return Err(ErrorKind::OutOfBounds);
        }
        let mut idx: usize = 0;
        while idx <= x_idx as usize
            invariant
                old(self).wf(),
                x_idx < 16,
                i == old(self)@.i_reg,
                i + x_idx < 4096,
                idx <= x_idx + 1,
                self.wf(),
                self@.mem == old(self)@.mem,
                self@.stack == old(self)@.stack,
                self@.sp == old(self)@.sp,
                self@.i_reg == old(self)@.i_reg,
                self@.pc == old(self)@.pc,
                self@.delay == old(self)@.delay,
                self@.sound == old(self)@.sound,
                self@.disp == old(self)@.disp,
                self@.keys == old(self)@.keys,
                self@.waiting == old(self)@.waiting,
                forall|k: int| 0 <= k < idx ==> self@.v_reg[k] == old(self)@.mem[i + k],
                forall|k: int| idx <= k < 16 ==> self@.v_reg[k] == old(self)@.v_reg[k],
            decreases x_idx + 1 - idx,
        {
            let b = self.ram.byte_at(i + idx);
            self.v_reg.set(idx, b);
            idx += 1;
        }
        proof {
            let target = read_regs_spec(old(self)@, x_idx);
            assert(self@.v_reg =~= target.0.v_reg);
            assert(self@ =~= target.0);
        }
        Ok(())
    }

    /// Dxyn: read the n sprite rows at I and XOR-blit them at position
    /// (Vx, Vy); VF becomes the collision flag.  All rows are validated to
    /// lie inside memory before anything is drawn.
    pub fn draw(&mut self, x_idx: u8, y_idx: u8, n: u8) -> (r: Result<(), ErrorKind>)
        requires
            old(self).wf(),
            x_idx < 16,
            y_idx < 16,
            n < 16,
        ensures
            final(self).wf(),
            (final(self)@, r) == draw_spec(old(self)@, x_idx, y_idx, n),
    {
        if n == 0 {
            self.v_reg.set(VF, 0);
            return Ok(());
        }
        let i = self.i_reg as usize;
        if i + n as usize > 4096 {
            return Err(ErrorKind::OutOfBounds);
        }
        let mut rows: Vec<u8> = Vec::new();
        let mut rr: usize = 0;
        while rr < n as usize
            invariant
                self.wf(),
                self@ == old(self)@,
                0 < n < 16,
                i == old(self)@.i_reg,
                i + n <= 4096,
                rr <= n,
                rows@.len() == rr,
                forall|k: int| 0 <= k < rr ==> rows@[k] == self@.mem[i + k],
            decreases n - rr,
        {
            let b = self.ram.byte_at(i + rr);
            rows.push(b);
            rr += 1;
        }
        proof {
            assert(rows@ =~= old(self)@.mem.subrange(i as int, i as int + n as int));
        }
        let vx = self.v_reg[x_idx as usize];
        let vy = self.v_reg[y_idx as usize];
        let coll = self.display.draw_sprite(&rows, vx, vy);
        self.v_reg.set(VF, if coll { 1 } else { 0 });
        proof {
            assert(self@ =~= draw_spec(old(self)@, x_idx, y_idx, n).0);
        }
        Ok(())
    }

    /// Dispatch one instruction word: decode it and apply the matching
    /// opcode handler.  For every word but the random opcode the outcome
    /// is the one fixed state transition of the opcode table; for the
    /// random opcode the transition holds for some byte the generator
    /// yielded.
    pub fn cycle(&mut self, opcode: u16) -> (r: Result<(), ErrorKind>)
        requires
            old(self).wf(),
        ensures
            final(self).wf(),
            is_random_op(opcode) ==> exists|rnd: u8|
                (final(self)@, r) == cycle_spec(old(self)@, opcode, rnd),
            !is_random_op(opcode) ==> (final(self)@, r) == cycle_spec(old(self)@, opcode, 0u8),
    {
        proof {
            lemma_field_bounds(opcode);
        }
        match decode(opcode) {
            None => Err(ErrorKind::UnknownOpcode),
            Some(instr) => match instr {
                Instr::ClearScreen => {
                    self.display.clear();
                    Ok(())
                },
                Instr::Return => self.ret_subroutine(),
                Instr::Jump(a) => {
                    self.jmp_addr(a);
                    Ok(())
                },
                Instr::Call(a) => self.call_subroutine(a),
                Instr::SkipEqVal(x, kk) => {
                    self.skip_eq_value(x, kk);
                    Ok(())
                },
                Instr::SkipNeqVal(x, kk) => {
                    self.skip_neq_value(x, kk);
                    Ok(())
                },
                Instr::SkipEqReg(x, y) => {
                    self.skip_eq_xy(x, y);
                    Ok(())
                },
                Instr::SetVal(x, kk) => {
                    self.set_x_value(x, kk);
                    Ok(())
                },
                Instr::AddVal(x, kk) => {
                    self.add_x_value(x, kk);
                    Ok(())
                },
                Instr::Copy(x, y) => {
                    self.store_xy(x, y);
                    Ok(())
                },
                Instr::Or(x, y) => {
                    self.or_xy(x, y);
                    Ok(())
                },
                Instr::And(x, y) => {
                    self.and_xy(x, y);
                    Ok(())
                },
                Instr::Xor(x, y) => {
                    self.xor_xy(x, y);
                    Ok(())
                },
                Instr::AddReg(x, y) => {
                    self.add_xy(x, y);
                    Ok(())
                },
                Instr::SubReg(x, y) => {
                    self.sub_xy(x, y);
                    Ok(())
                },
                Instr::ShiftRight(x) => {
                    self.shr_x(x);
                    Ok(())
                },
                Instr::SubFrom(x, y) => {
                    self.subn_xy(x, y);
                    Ok(())
                },
                Instr::ShiftLeft(x) => {
                    self.shl_x(x);
                    Ok(())
                },
                Instr::SkipNeqReg(x, y) => {
                    self.skip_neq_xy(x, y);
                    Ok(())
                },
                Instr::SetIndex(a) => {
                    self.set_i(a);
                    Ok(())
                },
                Instr::JumpOffset(a) => {
                    self.jmp_addr_offset(a);
                    Ok(())
                },
                Instr::Random(x, kk) => {
                    self.rnd_and(x, kk);
                    proof {
                        let rnd = choose|rnd: u8| self@ == rnd_spec(old(self)@, x, kk, rnd);
                        assert((self@, Ok::<(), ErrorKind>(())) == cycle_spec(
                            old(self)@,
                            opcode,
                            rnd,
                        ));
                    }
                    Ok(())
                },
                Instr::Draw(x, y, n) => self.draw(x, y, n),
                Instr::SkipKeyPressed(x) => {
                    self.skip_key_pressed(x);
                    Ok(())
                },
                Instr::SkipKeyNotPressed(x) => {
                    self.skip_key_not_pressed(x);
                    Ok(())
                },
                Instr::ReadDelay(x) => {
                    self.read_delay_timer(x);
                    Ok(())
                },
                Instr::WaitKey(x) => {
                    self.wait_keypress(x);
                    Ok(())
                },
                Instr::SetDelay(x) => {
                    self.set_delay_timer(x);
                    Ok(())
                },
                Instr::SetSound(x) => {
                    self.set_sound_timer(x);
                    Ok(())
                },
                Instr::AddIndex(x) => {
                    self.add_i(x);
                    Ok(())
                },
                Instr::FontIndex(x) => {
                    self.set_i_digit(x);
                    Ok(())
                },
                Instr::StoreBcd(x) => self.store_bcd(x),
                Instr::StoreRegs(x) => self.store_registers(x),
                Instr::LoadRegs(x) => self.read_registers(x),
            },
        }
    }

    /// Execute one step of the machine: poll the keypad when suspended on
    /// Fx0A, otherwise fetch, advance the program counter by two, and
    /// dispatch the fetched word, surfacing any fault with the offending
    /// program counter and opcode.
    pub fn step(&mut self) -> (r: Result<(), Fault>)
        requires
            old(self).wf(),
        ensures
            final(self).wf(),
            exists|rnd: u8| (final(self)@, r) == step_spec(old(self)@, rnd),
            !step_consumes_random(old(self)@) ==> (final(self)@, r) == step_spec(
                old(self)@,
                0u8,
            ),
    {
        match self.waiting {
            Some(x) => {
                match self.keypad.scan() {
                    Some(k) => {
                        proof {
                            lemma_first_pressed_bound(old(self)@.keys, 0);
                        }
                        self.v_reg.set(x as usize, k);
                        self.waiting = None;
                        proof {
                            assert((self@, Ok::<(), Fault>(())) == step_spec(old(self)@, 0u8));
                        }
                        Ok(())
                    },
                    None => {
                        proof {
                            assert((self@, Ok::<(), Fault>(())) == step_spec(old(self)@, 0u8));
                        }
                        Ok(())
                    },
                }
            },
            None => {
                let pc = self.program_counter;
                if pc as usize + 1 >= 4096 {
                    proof {
                        assert((self@, Err::<(), Fault>(
                            Fault { kind: ErrorKind::OutOfBounds, pc, opcode: 0 },
                        )) == step_spec(old(self)@, 0u8));
                    }
                    return Err(Fault { kind: ErrorKind::OutOfBounds, pc, opcode: 0 });
                }
                let hi = self.ram.byte_at(pc as usize);
                let lo = self.ram.byte_at(pc as usize + 1);
                let opcode = (hi as u16) * 256 + (lo as u16);
                self.program_counter = pc + 2;
                let ghost s1 = self@;
                proof {
                    assert(opcode == fetch_op(old(self)@));
                    assert(s1 == (CpuView { pc: (old(self)@.pc + 2) as u16, ..old(self)@ }));
                }
                let res = self.cycle(opcode);
                let r2 = match res {
                    Ok(()) => Ok(()),
                    Err(k) => Err(Fault { kind: k, pc, opcode }),
                };
                proof {
                    if is_random_op(opcode) {
                        let rnd = choose|rnd: u8| (self@, res) == cycle_spec(s1, opcode, rnd);
                        assert((self@, r2) == step_spec(old(self)@, rnd));
                    } else {
                        assert((self@, r2) == step_spec(old(self)@, 0u8));
                    }
                }
                r2
            },
        }
    }
}

/// Writing a register and then reading the same index yields exactly the
/// value written, for every register index and value.
pub proof fn lemma_set_then_get(s: CpuView, r: u8, v: u8)
    requires
        s.wf(),
        r < 16,
    ensures
        reg_set_spec(s, r, v).1 == Ok::<(), ErrorKind>(()),
        reg_get_spec(reg_set_spec(s, r, v).0, r) == Ok::<u8, ErrorKind>(v),
{
}

/// A call followed by a return restores the program counter and leaves the
/// stack depth at its pre-call value, from any state with room to call.
pub proof fn lemma_call_then_return(s: CpuView, addr: u16)
    requires
        s.wf(),
        s.sp < 16,
    ensures
        call_spec(s, addr).1 == Ok::<(), ErrorKind>(()),
        ret_spec(call_spec(s, addr).0).1 == Ok::<(), ErrorKind>(()),
        ret_spec(call_spec(s, addr).0).0.pc == s.pc,
        ret_spec(call_spec(s, addr).0).0.sp == s.sp,
{
}

/// The stack bound: a call from fewer than 16 live entries succeeds and
/// deepens the stack by one; a call from 16 entries fails with
/// `StackOverflow` and changes nothing.
pub proof fn lemma_call_depth_limit(s: CpuView, addr: u16)
    requires
        s.wf(),
    ensures
        s.sp < 16 ==> call_spec(s, addr).1 == Ok::<(), ErrorKind>(()) && call_spec(s, addr).0.sp
            == s.sp + 1,
        s.sp == 16 ==> call_spec(s, addr).1 == Err::<(), ErrorKind>(ErrorKind::StackOverflow)
            && call_spec(s, addr).0 == s,
{
}

/// While the machine is suspended on Fx0A and no key is pressed, a step
/// changes nothing at all: in particular the program counter stays put, so
/// any number of further steps leave the state as it is.
pub proof fn lemma_wait_key_blocks(s: CpuView, rnd: u8)
    requires
        s.wf(),
        s.waiting is Some,
        first_pressed(s.keys) is None,
    ensures
        step_spec(s, rnd) == (s, Ok::<(), Fault>(())),
{
}

/// A step taken while suspended with a key pressed stores the lowest
/// pressed key code into the awaited register, ends the suspension, and
/// leaves the program counter untouched; the step after it proceeds
/// normally.
pub proof fn lemma_wait_key_resumes(s: CpuView, rnd: u8)
    requires
        s.wf(),
        s.waiting is Some,
        first_pressed(s.keys) is Some,
    ensures
        step_spec(s, rnd).1 == Ok::<(), Fault>(()),
        step_spec(s, rnd).0.pc == s.pc,
        step_spec(s, rnd).0.waiting is None,
        s.waiting matches Some(x) && first_pressed(s.keys) matches Some(k) ==> step_spec(
            s,
            rnd,
        ).0.v_reg == s.v_reg.update(x as int, k),
{
}

} // verus!
