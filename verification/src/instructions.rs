use vstd::prelude::*;
use crate::cpu::{self, CPU, CpuView};
use crate::ram::{lemma_wrap_offset, RamView, HEAP_SIZE};
use vstd::arithmetic::div_mod::lemma_mod_division_less_than_divisor;

verus! {

/// A 16-bit opcode, fetched big-endian from memory.
pub struct Opcode {
    pub full: u16,
}

impl Opcode {
    pub fn from_u8s(high: u8, low: u8) -> (r: Opcode)
        ensures
            r.full == high * 256 + low,
    {
        let full: u16 = ((high as u16) << 8) | (low as u16);
        proof {
            assert((((high as u16) << 8) | (low as u16)) == high as u16 * 256 + low as u16)
                by (bit_vector);
        }
        Opcode { full }
    }

    pub fn get_full(&self) -> (r: u16)
        ensures
            r == self.full,
    {
        self.full
    }

    /// The low twelve bits: the address field `nnn`.
    pub fn get_addr(&self) -> (r: u16)
        ensures
            r == self.full % 0x1000,
    {
        let f: u16 = self.full;
        proof {
            assert((f & 0x0FFF) == f % 0x1000) by (bit_vector);
        }
        f & 0x0FFF
    }

    /// The low byte `kk`.
    pub fn get_kk(&self) -> (r: u8)
        ensures
            r == self.full % 0x100,
    {
        let f: u16 = self.full;
        proof {
            assert(((f & 0x00FF) as u8) == f % 0x100) by (bit_vector);
        }
        (f & 0x00FF) as u8
    }

    /// The high nibble, which selects the instruction group.
    pub fn get_s(&self) -> (r: u8)
        ensures
            r == self.full / 0x1000,
    {
        let f: u16 = self.full;
        proof {
            assert((((f & 0xF000) >> 12) as u8) == f / 0x1000) by (bit_vector);
        }
        ((f & 0xF000) >> 12) as u8
    }

    /// The second nibble: the register selector `x`.
    pub fn get_x(&self) -> (r: u8)
        ensures
            r == (self.full / 0x100) % 0x10,
    {
        let f: u16 = self.full;
        proof {
            assert((((f & 0x0F00) >> 8) as u8) == (f / 0x100) % 0x10) by (bit_vector);
        }
        ((f & 0x0F00) >> 8) as u8
    }

    pub fn get_x_usize(&self) -> (r: usize)
        ensures
            r == (self.full / 0x100) % 0x10,
    {
        self.get_x() as usize
    }

    /// The third nibble: the register selector `y`.
    pub fn get_y(&self) -> (r: u8)
        ensures
            r == (self.full / 0x10) % 0x10,
    {
        let f: u16 = self.full;
        proof {
            assert((((f & 0x00F0) >> 4) as u8) == (f / 0x10) % 0x10) by (bit_vector);
        }
        ((f & 0x00F0) >> 4) as u8
    }

    pub fn get_y_usize(&self) -> (r: usize)
        ensures
            r == (self.full / 0x10) % 0x10,
    {
        self.get_y() as usize
    }

    pub fn get_x_and_y_usize(&self) -> (r: (usize, usize))
        ensures
            r.0 == (self.full / 0x100) % 0x10,
            r.1 == (self.full / 0x10) % 0x10,
    {
        (self.get_x_usize(), self.get_y_usize())
    }

    /// The low nibble `n`.
    pub fn get_n(&self) -> (r: u8)
        ensures
            r == self.full % 0x10,
    {
        let f: u16 = self.full;
        proof {
            assert(((f & 0x000F) as u8) == f % 0x10) by (bit_vector);
        }
        (f & 0x000F) as u8
    }
}

/// The decoded selector of one instruction. The operand nibbles stay in the
/// opcode itself and are read again by the executor.
#[derive(PartialEq, Eq, Structural, Clone, Copy, Debug)]
pub enum Instruction {
    Cls,
    Ret,
    JpAddr,
    CallAddr,
    SeVxByte,
    SneVxByte,
    SeVxVy,
    LdVxByte,
    AddVxByte,
    LdVxVy,
    OrVxVy,
    AndVxVy,
    XorVxVy,
    AddVxVy,
    SubVxVy,
    ShrVx,
    SubnVxVy,
    ShlVx,
    SneVxVy,
    LdIAddr,
    JpV0Addr,
    RndVxByte,
    DrwVxVyN,
    SkpVx,
    SknpVx,
    LdVxDt,
    LdVxK,
    LdDtVx,
    LdStVx,
    AddIVx,
    LdFVx,
    LdBVx,
    LdIVx,
    LdVxI,
}

/// What a 16-bit word decodes to; `None` is an unknown opcode, which the
/// machine skips without executing.
pub open spec fn spec_decode(full: u16) -> Option<Instruction> {
    let s = full / 0x1000;
    let nnn = full % 0x1000;
    let kk = full % 0x100;
    let n = full % 0x10;
    if s == 0x0 {
        if nnn == 0x0E0 {
            Some(Instruction::Cls)
        } else if nnn == 0x0EE {
            Some(Instruction::Ret)
        } else {
            None
        }
    } else if s == 0x1 {
        Some(Instruction::JpAddr)
    } else if s == 0x2 {
        Some(Instruction::CallAddr)
    } else if s == 0x3 {
        Some(Instruction::SeVxByte)
    } else if s == 0x4 {
        Some(Instruction::SneVxByte)
    } else if s == 0x5 {
        if n == 0x0 {
            Some(Instruction::SeVxVy)
        } else {
            None
        }
    } else if s == 0x6 {
        Some(Instruction::LdVxByte)
    } else if s == 0x7 {
        Some(Instruction::AddVxByte)
    } else if s == 0x8 {
        if n == 0x0 {
            Some(Instruction::LdVxVy)
        } else if n == 0x1 {
            Some(Instruction::OrVxVy)
        } else if n == 0x2 {
            Some(Instruction::AndVxVy)
        } else if n == 0x3 {
            Some(Instruction::XorVxVy)
        } else if n == 0x4 {
            Some(Instruction::AddVxVy)
        } else if n == 0x5 {
            Some(Instruction::SubVxVy)
        } else if n == 0x6 {
            Some(Instruction::ShrVx)
        } else if n == 0x7 {
            Some(Instruction::SubnVxVy)
        } else if n == 0xE {
            Some(Instruction::ShlVx)
        } else {
            None
        }
    } else if s == 0x9 {
        if n == 0x0 {
            Some(Instruction::SneVxVy)
        } else {
            None
        }
    } else if s == 0xA {
        Some(Instruction::LdIAddr)
    } else if s == 0xB {
        Some(Instruction::JpV0Addr)
    } else if s == 0xC {
        Some(Instruction::RndVxByte)
    } else if s == 0xD {
        Some(Instruction::DrwVxVyN)
    } else if s == 0xE {
        if kk == 0x9E {
            Some(Instruction::SkpVx)
        } else if kk == 0xA1 {
            Some(Instruction::SknpVx)
        } else {
            None
        }
    } else {
        if kk == 0x07 {
            Some(Instruction::LdVxDt)
        } else if kk == 0x0A {
            Some(Instruction::LdVxK)
        } else if kk == 0x15 {
            Some(Instruction::LdDtVx)
        } else if kk == 0x18 {
            Some(Instruction::LdStVx)
        } else if kk == 0x1E {
            Some(Instruction::AddIVx)
        } else if kk == 0x29 {
            Some(Instruction::LdFVx)
        } else if kk == 0x33 {
            Some(Instruction::LdBVx)
        } else if kk == 0x55 {
            Some(Instruction::LdIVx)
        } else if kk == 0x65 {
            Some(Instruction::LdVxI)
        } else {
            None
        }
    }
}

/// Classify an opcode by its high nibble and, where the group needs it, by
/// its low nibble or low byte.
pub fn get_instruction_function(op: &Opcode) -> (r: Option<Instruction>)
    ensures
        r == spec_decode(op.full),
{
    let s: u8 = op.get_s();
    match s {
        0x0 => match op.get_addr() {
            0x0E0 => Some(Instruction::Cls),
            0x0EE => Some(Instruction::Ret),
            _ => None,
        },
        0x1 => Some(Instruction::JpAddr),
        0x2 => Some(Instruction::CallAddr),
        0x3 => Some(Instruction::SeVxByte),
        0x4 => Some(Instruction::SneVxByte),
        0x5 => match op.get_n() {
            0x0 => Some(Instruction::SeVxVy),
            _ => None,
        },
        0x6 => Some(Instruction::LdVxByte),
        0x7 => Some(Instruction::AddVxByte),
        0x8 => match op.get_n() {
            0x0 => Some(Instruction::LdVxVy),
            0x1 => Some(Instruction::OrVxVy),
            0x2 => Some(Instruction::AndVxVy),
            0x3 => Some(Instruction::XorVxVy),
            0x4 => Some(Instruction::AddVxVy),
            0x5 => Some(Instruction::SubVxVy),
            0x6 => Some(Instruction::ShrVx),
            0x7 => Some(Instruction::SubnVxVy),
            0xE => Some(Instruction::ShlVx),
            _ => None,
        },
        0x9 => match op.get_n() {
            0x0 => Some(Instruction::SneVxVy),
            _ => None,
        },
        0xA => Some(Instruction::LdIAddr),
        0xB => Some(Instruction::JpV0Addr),
        0xC => Some(Instruction::RndVxByte),
        0xD => Some(Instruction::DrwVxVyN),
        0xE => match op.get_kk() {
            0x9E => Some(Instruction::SkpVx),
            0xA1 => Some(Instruction::SknpVx),
            _ => None,
        },
        _ => match op.get_kk() {
            0x07 => Some(Instruction::LdVxDt),
            0x0A => Some(Instruction::LdVxK),
            0x15 => Some(Instruction::LdDtVx),
            0x18 => Some(Instruction::LdStVx),
            0x1E => Some(Instruction::AddIVx),
            0x29 => Some(Instruction::LdFVx),
            0x33 => Some(Instruction::LdBVx),
            0x55 => Some(Instruction::LdIVx),
            0x65 => Some(Instruction::LdVxI),
            _ => None,
        },
    }
}

/// The `x` register selector of a word.
pub open spec fn op_x(full: u16) -> int {
    (full as int / 0x100) % 0x10
}

/// The `y` register selector of a word.
pub open spec fn op_y(full: u16) -> int {
    (full as int / 0x10) % 0x10
}

/// The low byte `kk` of a word.
pub open spec fn op_kk(full: u16) -> u8 {
    (full % 0x100) as u8
}

/// The low nibble `n` of a word.
pub open spec fn op_n(full: u16) -> int {
    full as int % 0x10
}

/// The address field `nnn` of a word.
pub open spec fn op_addr(full: u16) -> u16 {
    (full % 0x1000) as u16
}

/// The instructions that load the program counter with an arbitrary
/// address; every other instruction moves it by whole instructions only.
pub open spec fn sets_pc_directly(i: Instruction) -> bool {
    ||| i == Instruction::JpAddr
    ||| i == Instruction::CallAddr
    ||| i == Instruction::Ret
    ||| i == Instruction::JpV0Addr
}

/// `00E0`: clear the framebuffer.
#[allow(non_snake_case)]
pub fn i_00E0_CLS(this: &mut CPU, _op: &Opcode) -> (blocked: bool)
    requires
        old(this).wf(),
    ensures
        final(this).wf(),
        !blocked,
        *final(this) == (CPU { gpu: final(this).gpu, ..*old(this) }),
        final(this).gpu.config == old(this).gpu.config,
        final(this).gpu.framebuffer@.len() == old(this).gpu.framebuffer@.len(),
        forall|i: int|
            0 <= i < final(this).gpu.framebuffer@.len() ==> !final(this).gpu.framebuffer@[i],
        final(this).gpu.render_queued == if old(this).gpu.config.render_occasion
            == crate::config::RenderOccasion::Changes {
            true
        } else {
            old(this).gpu.render_queued
        },
{
    this.gpu.clear_framebuffer();
    false
}

/// `00EE`: return from a subroutine; an empty stack follows the stack's
/// wrap policy or halts.
#[allow(non_snake_case)]
pub fn i_00EE_RET(this: &mut CPU, _op: &Opcode) -> (blocked: bool)
    requires
        old(this).wf(),
    ensures
        final(this).wf(),
        !blocked,
        *final(this) == (CPU {
            ram: final(this).ram,
            pc: final(this).pc,
            active: final(this).active,
            ..*old(this)
        }),
        ({
            let (rv, res) = old(this).ram@.pop_result();
            &&& final(this).ram@ == rv
            &&& if res is Some {
                final(this).pc == res.unwrap() && final(this).active == old(this).active
            } else {
                final(this).pc == old(this).pc && !final(this).active
            }
        }),
{
    let new_addr = match this.ram.pop_from_stack() {
        Some(a) => a,
        None => {
            this.sync_ram_active();
            return false;
        },
    };

    this.set_pc(new_addr);
    false
}

/// `1nnn`: jump.
#[allow(non_snake_case)]
pub fn i_1nnn_JP_addr(this: &mut CPU, op: &Opcode) -> (blocked: bool)
    requires
        old(this).wf(),
    ensures
        final(this).wf(),
        !blocked,
        *final(this) == (CPU { pc: op_addr(op.full), ..*old(this) }),
{
    this.set_pc(op.get_addr());
    false
}

/// `2nnn`: call a subroutine: push the return address (a full stack follows
/// the stack's wrap policy or halts), then jump.
#[allow(non_snake_case)]
pub fn i_2nnn_CALL_addr(this: &mut CPU, op: &Opcode) -> (blocked: bool)
    requires
        old(this).wf(),
    ensures
        final(this).wf(),
        !blocked,
        *final(this) == (CPU {
            ram: final(this).ram,
            pc: op_addr(op.full),
            active: final(this).active,
            ..*old(this)
        }),
        ({
            let (rv, ok) = old(this).ram@.push_result(old(this).pc);
            &&& final(this).ram@ == rv
            &&& final(this).active == (old(this).active && rv.active)
        }),
{
    let pc: u16 = this.pc;
    this.ram.push_to_stack(pc);
    this.sync_ram_active();
    this.set_pc(op.get_addr());
    false
}

/// The machine state after a conditional skip: the program counter moves by
/// one instruction, or the machine halts at the top of memory when the
/// program-counter policy forbids wrapping.
pub open spec fn skip_applied(pre: CPU) -> (u16, bool) {
    if pre.pc >= 0xFFE && !pre.config.allow_program_counter_overflow {
        (pre.pc, false)
    } else {
        (cpu::inc_pc(pre.pc), true)
    }
}

/// `3xkk`: skip the next instruction if `Vx == kk`.
#[allow(non_snake_case)]
pub fn i_3xkk_SE_Vx_byte(this: &mut CPU, op: &Opcode) -> (blocked: bool)
    requires
        old(this).wf(),
    ensures
        final(this).wf(),
        !blocked,
        *final(this) == (CPU {
            pc: final(this).pc,
            active: final(this).active,
            ..*old(this)
        }),
        if old(this).v@[op_x(op.full)] == op_kk(op.full) {
            final(this).pc == skip_applied(*old(this)).0 && final(this).active == (old(this).active
                && skip_applied(*old(this)).1)
        } else {
            final(this).pc == old(this).pc && final(this).active == old(this).active
        },
{
    if this.get_v_reg(op.get_x()) == op.get_kk() {
        this.increment_pc();
    }

    false
}

/// `4xkk`: skip the next instruction if `Vx != kk`.
#[allow(non_snake_case)]
pub fn i_4xkk_SNE_Vx_byte(this: &mut CPU, op: &Opcode) -> (blocked: bool)
    requires
        old(this).wf(),
    ensures
        final(this).wf(),
        !blocked,
        *final(this) == (CPU {
            pc: final(this).pc,
            active: final(this).active,
            ..*old(this)
        }),
        if old(this).v@[op_x(op.full)] != op_kk(op.full) {
            final(this).pc == skip_applied(*old(this)).0 && final(this).active == (old(this).active
                && skip_applied(*old(this)).1)
        } else {
            final(this).pc == old(this).pc && final(this).active == old(this).active
        },
{
    if this.get_v_reg(op.get_x()) != op.get_kk() {
        this.increment_pc();
    }

    false
}

/// `5xy0`: skip the next instruction if `Vx == Vy`.
#[allow(non_snake_case)]
pub fn i_5xy0_SE_Vx_Vy(this: &mut CPU, op: &Opcode) -> (blocked: bool)
    requires
        old(this).wf(),
    ensures
        final(this).wf(),
        !blocked,
        *final(this) == (CPU {
            pc: final(this).pc,
            active: final(this).active,
            ..*old(this)
        }),
        if old(this).v@[op_x(op.full)] == old(this).v@[op_y(op.full)] {
            final(this).pc == skip_applied(*old(this)).0 && final(this).active == (old(this).active
                && skip_applied(*old(this)).1)
        } else {
            final(this).pc == old(this).pc && final(this).active == old(this).active
        },
{
    let (vx, vy) = this.get_v_reg_xy(op.get_x(), op.get_y());

    if vx == vy {
        this.increment_pc();
    }

    false
}

/// `6xkk`: load `kk` into `Vx`.
#[allow(non_snake_case)]
pub fn i_6xkk_LD_Vx_byte(this: &mut CPU, op: &Opcode) -> (blocked: bool)
    requires
        old(this).wf(),
    ensures
        final(this).wf(),
        !blocked,
        *final(this) == (CPU { v: final(this).v, ..*old(this) }),
        final(this).v@ == old(this).v@.update(op_x(op.full), op_kk(op.full)),
{
    this.set_v_reg(op.get_x(), op.get_kk());
    false
}

/// `7xkk`: add `kk` to `Vx`, wrapping, with no flag written.
#[allow(non_snake_case)]
pub fn i_7xkk_ADD_Vx_byte(this: &mut CPU, op: &Opcode) -> (blocked: bool)
    requires
        old(this).wf(),
    ensures
        final(this).wf(),
        !blocked,
        *final(this) == (CPU { v: final(this).v, ..*old(this) }),
        final(this).v@ == old(this).v@.update(
            op_x(op.full),
            ((old(this).v@[op_x(op.full)] + op_kk(op.full)) % 0x100) as u8,
        ),
{
    let x = op.get_x();
    let vx = this.get_v_reg(x);
    let sum: u16 = vx as u16 + op.get_kk() as u16;
    this.set_v_reg(x, (sum % 0x100) as u8);
    false
}

/// `9xy0`: skip the next instruction if `Vx != Vy`.
#[allow(non_snake_case)]
pub fn i_9xy0_SNE_Vx_Vy(this: &mut CPU, op: &Opcode) -> (blocked: bool)
    requires
        old(this).wf(),
    ensures
        final(this).wf(),
        !blocked,
        *final(this) == (CPU {
            pc: final(this).pc,
            active: final(this).active,
            ..*old(this)
        }),
        if old(this).v@[op_x(op.full)] != old(this).v@[op_y(op.full)] {
            final(this).pc == skip_applied(*old(this)).0 && final(this).active == (old(this).active
                && skip_applied(*old(this)).1)
        } else {
            final(this).pc == old(this).pc && final(this).active == old(this).active
        },
{
    let (vx, vy) = this.get_v_reg_xy(op.get_x(), op.get_y());

    if vx != vy {
        this.increment_pc();
    }

    false
}

/// `Annn`: load `nnn` into the index register.
#[allow(non_snake_case)]
pub fn i_Annn_LD_I_addr(this: &mut CPU, op: &Opcode) -> (blocked: bool)
    requires
        old(this).wf(),
    ensures
        final(this).wf(),
        !blocked,
        *final(this) == (CPU { index: op_addr(op.full), ..*old(this) }),
{
    this.set_index_reg(op.get_addr());
    false
}

/// `8xy0`: load `Vy` into `Vx`.
#[allow(non_snake_case)]
pub fn i_8xy0_LD_Vx_Vy(this: &mut CPU, op: &Opcode) -> (blocked: bool)
    requires
        old(this).wf(),
    ensures
        final(this).wf(),
        !blocked,
        *final(this) == (CPU { v: final(this).v, ..*old(this) }),
        final(this).v@ == old(this).v@.update(op_x(op.full), old(this).v@[op_y(op.full)]),
{
    let (x, y) = (op.get_x(), op.get_y());
    let vy = this.get_v_reg(y);
    this.set_v_reg(x, vy);
    false
}

/// `8xy1`: OR `Vy` into `Vx`; the bitwise quirk then resets the flag.
#[allow(non_snake_case)]
pub fn i_8xy1_OR_Vx_Vy(this: &mut CPU, op: &Opcode) -> (blocked: bool)
    requires
        old(this).wf(),
    ensures
        final(this).wf(),
        !blocked,
        *final(this) == (CPU { v: final(this).v, ..*old(this) }),
        ({
            let merged = old(this).v@.update(
                op_x(op.full),
                old(this).v@[op_x(op.full)] | old(this).v@[op_y(op.full)],
            );
            final(this).v@ == if old(this).config.reset_flag_for_bitwise_operations {
                merged.update(0xF, 0u8)
            } else {
                merged
            }
        }),
{
    let (x, y) = (op.get_x(), op.get_y());
    let (vx, vy) = this.get_v_reg_xy(x, y);
    this.set_v_reg(x, vx | vy);
    if this.config.reset_flag_for_bitwise_operations {
        this.set_v_reg(0xF, 0);
    }
    false
}

/// `8xy2`: AND `Vy` into `Vx`; the bitwise quirk then resets the flag.
#[allow(non_snake_case)]
pub fn i_8xy2_AND_Vx_Vy(this: &mut CPU, op: &Opcode) -> (blocked: bool)
    requires
        old(this).wf(),
    ensures
        final(this).wf(),
        !blocked,
        *final(this) == (CPU { v: final(this).v, ..*old(this) }),
        ({
            let merged = old(this).v@.update(
                op_x(op.full),
                old(this).v@[op_x(op.full)] & old(this).v@[op_y(op.full)],
            );
            final(this).v@ == if old(this).config.reset_flag_for_bitwise_operations {
                merged.update(0xF, 0u8)
            } else {
                merged
            }
        }),
{
    let (x, y) = (op.get_x(), op.get_y());
    let (vx, vy) = this.get_v_reg_xy(x, y);
    this.set_v_reg(x, vx & vy);
    if this.config.reset_flag_for_bitwise_operations {
        this.set_v_reg(0xF, 0);
    }
    false
}

/// `8xy3`: XOR `Vy` into `Vx`; the bitwise quirk then resets the flag.
#[allow(non_snake_case)]
pub fn i_8xy3_XOR_Vx_Vy(this: &mut CPU, op: &Opcode) -> (blocked: bool)
    requires
        old(this).wf(),
    ensures
        final(this).wf(),
        !blocked,
        *final(this) == (CPU { v: final(this).v, ..*old(this) }),
        ({
            let merged = old(this).v@.update(
                op_x(op.full),
                old(this).v@[op_x(op.full)] ^ old(this).v@[op_y(op.full)],
            );
            final(this).v@ == if old(this).config.reset_flag_for_bitwise_operations {
                merged.update(0xF, 0u8)
            } else {
                merged
            }
        }),
{
    let (x, y) = (op.get_x(), op.get_y());
    let (vx, vy) = this.get_v_reg_xy(x, y);
    this.set_v_reg(x, vx ^ vy);
    if this.config.reset_flag_for_bitwise_operations {
        this.set_v_reg(0xF, 0);
    }
    false
}

/// `8xy4`: add `Vy` to `Vx`, wrapping; the flag then takes the carry, so an
/// add whose destination is the flag leaves the carry there.
#[allow(non_snake_case)]
pub fn i_8xy4_ADD_Vx_Vy(this: &mut CPU, op: &Opcode) -> (blocked: bool)
    requires
        old(this).wf(),
    ensures
        final(this).wf(),
        !blocked,
        *final(this) == (CPU { v: final(this).v, ..*old(this) }),
        ({
            let vx = old(this).v@[op_x(op.full)];
            let vy = old(this).v@[op_y(op.full)];
            let carry: u8 = if vx + vy > 0xFF {
                1
            } else {
                0
            };
            final(this).v@ == old(this).v@.update(op_x(op.full), ((vx + vy) % 0x100) as u8).update(
                0xF,
                carry,
            )
        }),
{
    let (x, y) = (op.get_x(), op.get_y());
    let (vx, vy) = this.get_v_reg_xy(x, y);
    let sum: u16 = vx as u16 + vy as u16;
    this.set_v_reg(x, (sum % 0x100) as u8);
    this.set_v_reg(0xF, if sum > 0xFF { 1 } else { 0 });
    false
}

/// `8xy5`: subtract `Vy` from `Vx`, wrapping; the flag then says whether no
/// borrow occurred (`Vx >= Vy`).
#[allow(non_snake_case)]
pub fn i_8xy5_SUB_Vx_Vy(this: &mut CPU, op: &Opcode) -> (blocked: bool)
    requires
        old(this).wf(),
    ensures
        final(this).wf(),
        !blocked,
        *final(this) == (CPU { v: final(this).v, ..*old(this) }),
        ({
            let vx = old(this).v@[op_x(op.full)];
            let vy = old(this).v@[op_y(op.full)];
            let no_borrow: u8 = if vx >= vy {
                1
            } else {
                0
            };
            final(this).v@ == old(this).v@.update(
                op_x(op.full),
                ((vx + 0x100 - vy) % 0x100) as u8,
            ).update(0xF, no_borrow)
        }),
{
    let (x, y) = (op.get_x(), op.get_y());
    let (vx, vy) = this.get_v_reg_xy(x, y);
    let diff: u16 = (vx as u16 + 0x100 - vy as u16) % 0x100;
    this.set_v_reg(x, diff as u8);
    this.set_v_reg(0xF, if vx >= vy { 1 } else { 0 });
    false
}

/// `8xy6`: shift right by one. The new-shift quirk shifts `Vx` itself;
/// classically the source is `Vy`. The flag then takes the bit shifted out.
#[allow(non_snake_case)]
pub fn i_8xy6_SHR_Vx(this: &mut CPU, op: &Opcode) -> (blocked: bool)
    requires
        old(this).wf(),
    ensures
        final(this).wf(),
        !blocked,
        *final(this) == (CPU { v: final(this).v, ..*old(this) }),
        ({
            let src = if old(this).config.use_new_shift_instruction {
                old(this).v@[op_x(op.full)]
            } else {
                old(this).v@[op_y(op.full)]
            };
            final(this).v@ == old(this).v@.update(op_x(op.full), src >> 1u8).update(
                0xF,
                src & 1u8,
            )
        }),
{
    let (x, y) = (op.get_x(), op.get_y());
    let (vx, vy) = this.get_v_reg_xy(x, y);

    let v_used = if this.config.use_new_shift_instruction {
        vx
    } else {
        vy
    };

    this.set_v_reg(x, v_used >> 1);
    this.set_v_reg(0xF, v_used & 1);
    false
}

/// `8xy7`: store `Vy - Vx`, wrapping, into `Vx`; the flag then says whether
/// no borrow occurred (`Vy >= Vx`).
#[allow(non_snake_case)]
pub fn i_8xy7_SUBN_Vx_Vy(this: &mut CPU, op: &Opcode) -> (blocked: bool)
    requires
        old(this).wf(),
    ensures
        final(this).wf(),
        !blocked,
        *final(this) == (CPU { v: final(this).v, ..*old(this) }),
        ({
            let vx = old(this).v@[op_x(op.full)];
            let vy = old(this).v@[op_y(op.full)];
            let no_borrow: u8 = if vy >= vx {
                1
            } else {
                0
            };
            final(this).v@ == old(this).v@.update(
                op_x(op.full),
                ((vy + 0x100 - vx) % 0x100) as u8,
            ).update(0xF, no_borrow)
        }),
{
    let (x, y) = (op.get_x(), op.get_y());
    let (vx, vy) = this.get_v_reg_xy(x, y);
    let diff: u16 = (vy as u16 + 0x100 - vx as u16) % 0x100;
    this.set_v_reg(x, diff as u8);
    this.set_v_reg(0xF, if vy >= vx { 1 } else { 0 });
    false
}

/// `8xyE`: shift left by one, truncating. The new-shift quirk shifts `Vx`
/// itself; classically the source is `Vy`. The flag then takes the bit
/// shifted out.
#[allow(non_snake_case)]
pub fn i_8xyE_SHL_Vx(this: &mut CPU, op: &Opcode) -> (blocked: bool)
    requires
        old(this).wf(),
    ensures
        final(this).wf(),
        !blocked,
        *final(this) == (CPU { v: final(this).v, ..*old(this) }),
        ({
            let src = if old(this).config.use_new_shift_instruction {
                old(this).v@[op_x(op.full)]
            } else {
                old(this).v@[op_y(op.full)]
            };
            final(this).v@ == old(this).v@.update(op_x(op.full), ((src * 2) % 0x100) as u8).update(
                0xF,
                (src & 0x80u8) >> 7u8,
            )
        }),
{
    let (x, y) = (op.get_x(), op.get_y());
    let (vx, vy) = this.get_v_reg_xy(x, y);

    let v_used = if this.config.use_new_shift_instruction {
        vx
    } else {
        vy
    };

    let shifted: u16 = (v_used as u16 * 2) % 0x100;
    this.set_v_reg(x, shifted as u8);
    this.set_v_reg(0xF, (v_used & 0x80) >> 7);
    false
}

/// `Bnnn`: jump to `nnn` plus a register: classically `V0`, or `Vx` under
/// the new-jump quirk. A target past the 12-bit space follows the
/// program-counter overflow policy: wrap, or halt.
#[allow(non_snake_case)]
pub fn i_Bnnn_JP_V0_addr(this: &mut CPU, op: &Opcode) -> (blocked: bool)
    requires
        old(this).wf(),
    ensures
        final(this).wf(),
        !blocked,
        *final(this) == (CPU {
            pc: final(this).pc,
            active: final(this).active,
            ..*old(this)
        }),
        ({
            let src = if old(this).config.use_new_jump_instruction {
                old(this).v@[op_x(op.full)]
            } else {
                old(this).v@[0]
            };
            let target = src + op_addr(op.full);
            if target <= 0xFFF {
                final(this).pc == target && final(this).active == old(this).active
            } else if old(this).config.allow_program_counter_overflow {
                final(this).pc == target % 0x1000 && final(this).active == old(this).active
            } else {
                final(this).pc == old(this).pc && !final(this).active
            }
        }),
{
    let src: u8 = if this.config.use_new_jump_instruction {
        this.get_v_reg(op.get_x())
    } else {
        this.get_v_reg(0)
    };

    let target: u16 = src as u16 + op.get_addr();

    if target > 0xFFF {
        if !this.config.allow_program_counter_overflow {
            this.active = false;
            return false;
        }
        this.set_pc(target % 0x1000);
        return false;
    }

    this.set_pc(target);
    false
}

/// `Cxkk`: load a random byte ANDed with `kk` into `Vx`. The draw itself is
/// the generator's; only bits of `kk` can be set in the result.
#[allow(non_snake_case)]
pub fn i_Cxkk_RND_Vx_byte(this: &mut CPU, op: &Opcode) -> (blocked: bool)
    requires
        old(this).wf(),
    ensures
        final(this).wf(),
        !blocked,
        *final(this) == (CPU { v: final(this).v, rng: final(this).rng, ..*old(this) }),
        final(this).v@.len() == 16,
        forall|i: int| 0 <= i < 16 && i != op_x(op.full) ==> final(this).v@[i] == old(this).v@[i],
        final(this).v@[op_x(op.full)] & !op_kk(op.full) == 0,
{
    let rand: u8 = cpu::rng_u8(&mut this.rng);
    let kk: u8 = op.get_kk();
    let masked: u8 = kk & rand;
    proof {
        assert((kk & rand) & !kk == 0) by (bit_vector);
    }
    this.set_v_reg(op.get_x(), masked);
    false
}

/// `Dxyn`: draw the `n`-byte sprite at the index register to `(Vx, Vy)` and
/// write the collision into the flag. A sprite read that violates the heap
/// policy halts. With the one-draw-per-frame quirk, a draw while a redraw
/// is still queued reports the tick as blocked.
#[allow(non_snake_case)]
pub fn i_Dxyn_DRW_Vx_Vy_nibble(this: &mut CPU, op: &Opcode) -> (blocked: bool)
    requires
        old(this).wf(),
    ensures
        final(this).wf(),
        *final(this) == (CPU {
            ram: final(this).ram,
            gpu: final(this).gpu,
            v: final(this).v,
            active: final(this).active,
            ..*old(this)
        }),
        final(this).ram@ == (RamView { active: final(this).ram.active, ..old(this).ram@ }),
        if RamView::access_wraps(old(this).index, op_n(op.full)) && !old(
            this,
        ).ram.config.allow_heap_overflow {
            &&& !final(this).active
            &&& !final(this).ram.active
            &&& final(this).gpu == old(this).gpu
            &&& final(this).v == old(this).v
            &&& !blocked
        } else {
            let sprite = old(this).ram@.read_result(old(this).index, op_n(op.full));
            let drawn = crate::gpu::draw_sprite_spec(
                old(this).gpu.framebuffer@,
                sprite,
                old(this).v@[op_x(op.full)],
                old(this).v@[op_y(op.full)],
                old(this).gpu.width(),
                old(this).gpu.height(),
                old(this).gpu.config.wrap_sprite_positions,
                old(this).gpu.config.wrap_sprite_pixels,
            );
            &&& final(this).active == old(this).active
            &&& final(this).ram@ == old(this).ram@
            &&& final(this).gpu.config == old(this).gpu.config
            &&& final(this).gpu.framebuffer@ == drawn.0
            &&& final(this).gpu.render_queued == if (old(this).gpu.config.wrap_sprite_positions
                || (old(this).v@[op_x(op.full)] < old(this).gpu.width() && old(this).v@[op_y(
                op.full,
            )] < old(this).gpu.height())) && old(this).gpu.config.render_occasion
                == crate::config::RenderOccasion::Changes {
                true
            } else {
                old(this).gpu.render_queued
            }
            &&& final(this).v@ == old(this).v@.update(
                0xF,
                if drawn.1 {
                    1u8
                } else {
                    0u8
                },
            )
            &&& blocked == (old(this).config.limit_to_one_draw_per_frame
                && old(this).gpu.render_queued)
        },
{
    let index: u16 = this.index;
    let sprite = match this.ram.read_bytes(index, op.get_n() as u16) {
        Some(s) => s,
        None => {
            this.sync_ram_active();
            return false;
        },
    };

    let was_queued: bool = this.gpu.is_render_queued();
    let (x, y) = (op.get_x(), op.get_y());
    let (vx, vy) = this.get_v_reg_xy(x, y);
    let collided = this.gpu.draw_sprite(sprite, vx, vy);
    this.set_v_reg(0xF, if collided { 1 } else { 0 });

    this.config.limit_to_one_draw_per_frame && was_queued
}

/// `Ex9E`: skip the next instruction if the key named by the low nibble of
/// `Vx` is down.
#[allow(non_snake_case)]
pub fn i_Ex9E_SKP_Vx(this: &mut CPU, op: &Opcode) -> (blocked: bool)
    requires
        old(this).wf(),
    ensures
        final(this).wf(),
        !blocked,
        *final(this) == (CPU {
            pc: final(this).pc,
            active: final(this).active,
            ..*old(this)
        }),
        if old(this).input_manager@.key_states[(old(this).v@[op_x(op.full)] & 0xF) as int] {
            final(this).pc == skip_applied(*old(this)).0 && final(this).active == (old(this).active
                && skip_applied(*old(this)).1)
        } else {
            final(this).pc == old(this).pc && final(this).active == old(this).active
        },
{
    let key: u8 = this.get_v_reg(op.get_x()) & 0xF;
    proof {
        let v = old(this).v@[op_x(op.full)];
        assert(v & 0xF <= 0xF) by (bit_vector);
    }
    if this.input_manager.get_key_state(key) {
        this.increment_pc();
    }

    false
}

/// `ExA1`: skip the next instruction if the key named by the low nibble of
/// `Vx` is up.
#[allow(non_snake_case)]
pub fn i_ExA1_SKNP_Vx(this: &mut CPU, op: &Opcode) -> (blocked: bool)
    requires
        old(this).wf(),
    ensures
        final(this).wf(),
        !blocked,
        *final(this) == (CPU {
            pc: final(this).pc,
            active: final(this).active,
            ..*old(this)
        }),
        if !old(this).input_manager@.key_states[(old(this).v@[op_x(op.full)] & 0xF) as int] {
            final(this).pc == skip_applied(*old(this)).0 && final(this).active == (old(this).active
                && skip_applied(*old(this)).1)
        } else {
            final(this).pc == old(this).pc && final(this).active == old(this).active
        },
{
    let key: u8 = this.get_v_reg(op.get_x()) & 0xF;
    proof {
        let v = old(this).v@[op_x(op.full)];
        assert(v & 0xF <= 0xF) by (bit_vector);
    }
    if !this.input_manager.get_key_state(key) {
        this.increment_pc();
    }

    false
}

/// `Fx07`: load the delay timer into `Vx`.
#[allow(non_snake_case)]
pub fn i_Fx07_LD_Vx_DT(this: &mut CPU, op: &Opcode) -> (blocked: bool)
    requires
        old(this).wf(),
    ensures
        final(this).wf(),
        !blocked,
        *final(this) == (CPU { v: final(this).v, ..*old(this) }),
        final(this).v@ == old(this).v@.update(op_x(op.full), old(this).delay_timer.value),
{
    let val = this.delay_timer.get_value();
    this.set_v_reg(op.get_x(), val);
    false
}

/// `Fx0A`: wait for a full press-then-release key cycle. Until the
/// handshake completes, the instruction rewinds the program counter so it
/// runs again next tick; on completion the key's index lands in `Vx`. The
/// tick is always reported as blocked so the pacing loop resets.
#[allow(non_snake_case)]
pub fn i_Fx0A_LD_Vx_K(this: &mut CPU, op: &Opcode) -> (blocked: bool)
    requires
        old(this).wf(),
    ensures
        final(this).wf(),
        blocked,
        *final(this) == (CPU {
            input_manager: final(this).input_manager,
            v: final(this).v,
            pc: final(this).pc,
            ..*old(this)
        }),
        ({
            let (iv, res) = old(this).input_manager@.poll_result();
            &&& final(this).input_manager@ == iv
            &&& if res is Some {
                final(this).v@ == old(this).v@.update(op_x(op.full), res.unwrap())
                    && final(this).pc == old(this).pc
            } else {
                final(this).v == old(this).v && final(this).pc == cpu::rewind_pc(old(this).pc)
            }
        }),
{
    match this.input_manager.poll_next_key() {
        Some(key) => {
            this.set_v_reg(op.get_x(), key);
        },
        None => {
            let pc: u16 = this.pc;
            this.set_pc((pc + 0x1000 - 2) % 0x1000);
        },
    }
    true
}

/// `Fx15`: load `Vx` into the delay timer.
#[allow(non_snake_case)]
pub fn i_Fx15_LD_DT_Vx(this: &mut CPU, op: &Opcode) -> (blocked: bool)
    requires
        old(this).wf(),
    ensures
        final(this).wf(),
        !blocked,
        *final(this) == (CPU { delay_timer: final(this).delay_timer, ..*old(this) }),
        final(this).delay_timer.value == old(this).v@[op_x(op.full)],
{
    let val = this.get_v_reg(op.get_x());
    this.delay_timer.set_value(val);
    false
}

/// `Fx18`: load `Vx` into the sound timer.
#[allow(non_snake_case)]
pub fn i_Fx18_LD_ST_Vx(this: &mut CPU, op: &Opcode) -> (blocked: bool)
    requires
        old(this).wf(),
    ensures
        final(this).wf(),
        !blocked,
        *final(this) == (CPU { sound_timer: final(this).sound_timer, ..*old(this) }),
        final(this).sound_timer.value == old(this).v@[op_x(op.full)],
{
    let val = this.get_v_reg(op.get_x());
    this.sound_timer.set_value(val);
    false
}

/// `Fx1E`: add `Vx` to the index register. Overflow past 16 bits follows
/// the index policy: wrap, or halt. Under the flag quirk, a result past the
/// 12-bit address space sets the flag.
#[allow(non_snake_case)]
pub fn i_Fx1E_ADD_I_Vx(this: &mut CPU, op: &Opcode) -> (blocked: bool)
    requires
        old(this).wf(),
    ensures
        final(this).wf(),
        !blocked,
        *final(this) == (CPU {
            index: final(this).index,
            v: final(this).v,
            active: final(this).active,
            ..*old(this)
        }),
        ({
            let vx = old(this).v@[op_x(op.full)];
            if old(this).index + vx > 0xFFFF && !old(this).config.allow_index_register_overflow {
                &&& !final(this).active
                &&& final(this).index == old(this).index
                &&& final(this).v == old(this).v
            } else {
                let new_index = (old(this).index + vx) % 0x10000;
                &&& final(this).active == old(this).active
                &&& final(this).index == new_index
                &&& final(this).v@ == if new_index > 0xFFF && old(
                    this,
                ).config.set_flag_for_index_overflow {
                    old(this).v@.update(0xF, 1u8)
                } else {
                    old(this).v@
                }
            }
        }),
{
    let vx = this.get_v_reg(op.get_x());

    let index_out_of_range = match this.increment_index_reg_by(vx as u16) {
        Some(b) => b,
        None => {
            return false;
        },
    };

    if index_out_of_range && this.config.set_flag_for_index_overflow {
        this.set_v_reg(0xF, 1);
    }

    false
}

/// `Fx29`: point the index register at the font glyph for the low nibble
/// of `Vx`.
#[allow(non_snake_case)]
pub fn i_Fx29_LD_F_Vx(this: &mut CPU, op: &Opcode) -> (blocked: bool)
    requires
        old(this).wf(),
    ensures
        final(this).wf(),
        !blocked,
        *final(this) == (CPU { index: final(this).index, ..*old(this) }),
        final(this).index == old(this).ram.config.font_starting_address + (old(this).v@[op_x(
            op.full,
        )] & 0xF) * 5,
{
    let digit: u8 = this.get_v_reg(op.get_x()) & 0xF;
    proof {
        let v = old(this).v@[op_x(op.full)];
        assert(v & 0xF <= 0xF) by (bit_vector);
    }
    let addr = this.ram.get_hex_digit_address(digit);
    this.set_index_reg(addr);
    false
}

/// The three decimal digits of a byte, most significant first.
pub open spec fn bcd_of(v: u8) -> Seq<u8> {
    seq![v / 100, (v / 10) % 10, v % 10]
}

/// `Fx33`: write the three decimal digits of `Vx` to memory at the index
/// register. A write that violates the heap policy halts.
#[allow(non_snake_case)]
pub fn i_Fx33_LD_B_Vx(this: &mut CPU, op: &Opcode) -> (blocked: bool)
    requires
        old(this).wf(),
    ensures
        final(this).wf(),
        !blocked,
        *final(this) == (CPU {
            ram: final(this).ram,
            active: final(this).active,
            ..*old(this)
        }),
        ({
            let digits = bcd_of(old(this).v@[op_x(op.full)]);
            if RamView::access_wraps(old(this).index, 3) && !old(
                this,
            ).ram.config.allow_heap_overflow {
                &&& !final(this).active
                &&& final(this).ram@ == (RamView { active: false, ..old(this).ram@ })
            } else {
                &&& final(this).active == (old(this).active && old(this).ram.active)
                &&& final(this).ram@ == (RamView {
                    heap: old(this).ram@.heap_after_write(digits, old(this).index),
                    ..old(this).ram@
                })
            }
        }),
{
    let vx = this.get_v_reg(op.get_x());
    let mut bcd: Vec<u8> = Vec::new();
    bcd.push(vx / 100);
    bcd.push((vx / 10) % 10);
    bcd.push(vx % 10);
    proof {
        assert(bcd@ =~= bcd_of(old(this).v@[op_x(op.full)]));
    }

    let index: u16 = this.index;
    this.ram.write_bytes(&bcd, index);
    this.sync_ram_active();
    false
}

/// `Fx55`: write `V0..=Vx` to memory at the index register; a write that
/// violates the heap policy halts. Under the move-index quirk the index
/// register then moves by `x`.
#[allow(non_snake_case)]
pub fn i_Fx55_LD_I_Vx(this: &mut CPU, op: &Opcode) -> (blocked: bool)
    requires
        old(this).wf(),
    ensures
        final(this).wf(),
        !blocked,
        *final(this) == (CPU {
            ram: final(this).ram,
            index: final(this).index,
            active: final(this).active,
            ..*old(this)
        }),
        ({
            let x = op_x(op.full);
            let vals = old(this).v@.subrange(0, x + 1);
            let wrote = !RamView::access_wraps(old(this).index, x + 1) || old(
                this,
            ).ram.config.allow_heap_overflow;
            &&& final(this).ram@ == (RamView {
                heap: if wrote {
                    old(this).ram@.heap_after_write(vals, old(this).index)
                } else {
                    old(this).ram@.heap
                },
                active: old(this).ram.active && wrote,
                ..old(this).ram@
            })
            &&& if old(this).config.move_index_with_reads {
                if old(this).index + x > 0xFFFF && !old(
                    this,
                ).config.allow_index_register_overflow {
                    final(this).index == old(this).index && !final(this).active
                } else {
                    final(this).index == (old(this).index + x) % 0x10000 && final(this).active
                        == (old(this).active && old(this).ram.active && wrote)
                }
            } else {
                final(this).index == old(this).index && final(this).active == (old(this).active
                    && old(this).ram.active && wrote)
            }
        }),
{
    let x: u8 = op.get_x();
    let index: u16 = this.index;

    let vals = this.get_v_reg_range(0, x as usize + 1);
    this.ram.write_bytes(&vals, index);
    this.sync_ram_active();

    if this.config.move_index_with_reads {
        this.increment_index_reg_by(x as u16);
    }

    false
}

/// `Fx65`: read `x + 1` bytes from memory at the index register into
/// `V0..=Vx`; a read that violates the heap policy halts. Under the
/// move-index quirk the index register then moves by `x`.
#[allow(non_snake_case)]
pub fn i_Fx65_LD_Vx_I(this: &mut CPU, op: &Opcode) -> (blocked: bool)
    requires
        old(this).wf(),
    ensures
        final(this).wf(),
        !blocked,
        *final(this) == (CPU {
            ram: final(this).ram,
            index: final(this).index,
            v: final(this).v,
            active: final(this).active,
            ..*old(this)
        }),
        final(this).ram@ == (RamView { active: final(this).ram.active, ..old(this).ram@ }),
        ({
            let x = op_x(op.full);
            if RamView::access_wraps(old(this).index, x + 1) && !old(
                this,
            ).ram.config.allow_heap_overflow {
                &&& !final(this).active
                &&& !final(this).ram.active
                &&& final(this).v == old(this).v
                &&& final(this).index == old(this).index
            } else {
                let bytes = old(this).ram@.read_result(old(this).index, x + 1);
                &&& final(this).ram.active == old(this).ram.active
                &&& final(this).v@.len() == 16
                &&& forall|i: int|
                    0 <= i < 16 ==> final(this).v@[i] == if i <= x {
                        bytes[i]
                    } else {
                        old(this).v@[i]
                    }
                &&& if old(this).config.move_index_with_reads {
                    if old(this).index + x > 0xFFFF && !old(
                        this,
                    ).config.allow_index_register_overflow {
                        final(this).index == old(this).index && !final(this).active
                    } else {
                        final(this).index == (old(this).index + x) % 0x10000 && final(this).active
                            == old(this).active
                    }
                } else {
                    final(this).index == old(this).index && final(this).active == old(this).active
                }
            }
        }),
{
    let x: u8 = op.get_x();
    let index: u16 = this.index;

    let bytes = match this.ram.read_bytes(index, x as u16 + 1) {
        Some(b) => b,
        None => {
            this.sync_ram_active();
            return false;
        },
    };

    this.set_v_reg_range(0, &bytes);

    if this.config.move_index_with_reads {
        this.increment_index_reg_by(x as u16);
    }

    false
}

/// Whether the word at the program counter decodes to an instruction that
/// loads the program counter with an arbitrary address.
pub open spec fn sets_pc_directly_word(full: u16) -> bool {
    match spec_decode(full) {
        Some(i) => sets_pc_directly(i),
        None => false,
    }
}

/// The round-trip law behind `Fx33` followed by `Fx65`: after the three
/// decimal digits of `v` are written at any address, a three-byte read from
/// the same address returns exactly `[v / 100, (v / 10) % 10, v % 10]` --
/// the bytes that `Fx65` with `x >= 2` loads into `V0`, `V1` and `V2`.
pub proof fn lemma_bcd_round_trip(ram: RamView, v: u8, addr: u16)
    requires
        ram.wf(),
    ensures
        ({
            let written = RamView { heap: ram.heap_after_write(bcd_of(v), addr), ..ram };
            written.read_result(addr, 3) == seq![v / 100, (v / 10) % 10, v % 10]
        }),
{
    let m = HEAP_SIZE as int;
    let written = RamView { heap: ram.heap_after_write(bcd_of(v), addr), ..ram };
    assert forall|i: int| 0 <= i < 3 implies #[trigger] written.read_result(addr, 3)[i] == bcd_of(
        v,
    )[i] by {
        let a = (addr + i) % m;
        lemma_mod_division_less_than_divisor(addr + i, m);
        lemma_wrap_offset(addr as int, i, a);
        assert((a - addr) % m == i);
    }
    assert(written.read_result(addr, 3) =~= seq![v / 100, (v / 10) % 10, v % 10]);
}

/// The machine after a conditional skip was taken, in model terms.
pub open spec fn skip_view(pre: CpuView) -> CpuView {
    if pre.pc >= 0xFFE && !pre.config.allow_program_counter_overflow {
        CpuView { active: false, ..pre }
    } else {
        CpuView { pc: cpu::inc_pc(pre.pc), ..pre }
    }
}

/// What executing one decoded word does to the whole machine model, given
/// the byte `rand` that the generator would hand to `Cxkk`. This is the
/// specification that `CPU::execute_instruction` and `CPU::step` are held
/// to on their normal path; every instruction's exact effect is a case
/// here. A word that decodes to nothing leaves the machine unchanged.
/// (Opaque: provers name the function and reveal it where a case is
/// needed.)
#[verifier::opaque]
pub open spec fn spec_execute(pre: CpuView, word: u16, rand: u8) -> (CpuView, bool)
    recommends
        pre.wf(),
{
    let x = op_x(word);
    let y = op_y(word);
    let kk = op_kk(word);
    let nnn = op_addr(word);
    let n = op_n(word);
    let vx = pre.v[x];
    let vy = pre.v[y];
    match spec_decode(word) {
        None => (pre, false),
        Some(Instruction::Cls) => (
            CpuView {
                gpu: crate::gpu::GpuView {
                    framebuffer: Seq::new(pre.gpu.framebuffer.len(), |i: int| false),
                    render_queued: crate::gpu::queued_after_change(pre.gpu),
                    ..pre.gpu
                },
                ..pre
            },
            false,
        ),
        Some(Instruction::Ret) => {
            let (rv, res) = pre.ram.pop_result();
            match res {
                Some(addr) => (CpuView { ram: rv, pc: addr, ..pre }, false),
                None => (CpuView { ram: rv, active: false, ..pre }, false),
            }
        },
        Some(Instruction::JpAddr) => (CpuView { pc: nnn, ..pre }, false),
        Some(Instruction::CallAddr) => {
            let (rv, ok) = pre.ram.push_result(pre.pc);
            (CpuView { ram: rv, pc: nnn, active: pre.active && rv.active, ..pre }, false)
        },
        Some(Instruction::SeVxByte) => if vx == kk {
            (skip_view(pre), false)
        } else {
            (pre, false)
        },
        Some(Instruction::SneVxByte) => if vx != kk {
            (skip_view(pre), false)
        } else {
            (pre, false)
        },
        Some(Instruction::SeVxVy) => if vx == vy {
            (skip_view(pre), false)
        } else {
            (pre, false)
        },
        Some(Instruction::LdVxByte) => (CpuView { v: pre.v.update(x, kk), ..pre }, false),
        Some(Instruction::AddVxByte) => (
            CpuView { v: pre.v.update(x, ((vx + kk) % 0x100) as u8), ..pre },
            false,
        ),
        Some(Instruction::LdVxVy) => (CpuView { v: pre.v.update(x, vy), ..pre }, false),
        Some(Instruction::OrVxVy) => {
            let merged = pre.v.update(x, vx | vy);
            (
                CpuView {
                    v: if pre.config.reset_flag_for_bitwise_operations {
                        merged.update(0xF, 0u8)
                    } else {
                        merged
                    },
                    ..pre
                },
                false,
            )
        },
        Some(Instruction::AndVxVy) => {
            let merged = pre.v.update(x, vx & vy);
            (
                CpuView {
                    v: if pre.config.reset_flag_for_bitwise_operations {
                        merged.update(0xF, 0u8)
                    } else {
                        merged
                    },
                    ..pre
                },
                false,
            )
        },
        Some(Instruction::XorVxVy) => {
            let merged = pre.v.update(x, vx ^ vy);
            (
                CpuView {
                    v: if pre.config.reset_flag_for_bitwise_operations {
                        merged.update(0xF, 0u8)
                    } else {
                        merged
                    },
                    ..pre
                },
                false,
            )
        },
        Some(Instruction::AddVxVy) => {
            let carry: u8 = if vx + vy > 0xFF {
                1
            } else {
                0
            };
            (
                CpuView { v: pre.v.update(x, ((vx + vy) % 0x100) as u8).update(0xF, carry), ..pre },
                false,
            )
        },
        Some(Instruction::SubVxVy) => {
            let no_borrow: u8 = if vx >= vy {
                1
            } else {
                0
            };
            (
                CpuView {
                    v: pre.v.update(x, ((vx + 0x100 - vy) % 0x100) as u8).update(0xF, no_borrow),
                    ..pre
                },
                false,
            )
        },
        Some(Instruction::ShrVx) => {
            let src = if pre.config.use_new_shift_instruction {
                vx
            } else {
                vy
            };
            (CpuView { v: pre.v.update(x, src >> 1u8).update(0xF, src & 1u8), ..pre }, false)
        },
        Some(Instruction::SubnVxVy) => {
            let no_borrow: u8 = if vy >= vx {
                1
            } else {
                0
            };
            (
                CpuView {
                    v: pre.v.update(x, ((vy + 0x100 - vx) % 0x100) as u8).update(0xF, no_borrow),
                    ..pre
                },
                false,
            )
        },
        Some(Instruction::ShlVx) => {
            let src = if pre.config.use_new_shift_instruction {
                vx
            } else {
                vy
            };
            (
                CpuView {
                    v: pre.v.update(x, ((src * 2) % 0x100) as u8).update(0xF, (src & 0x80u8) >> 7u8),
                    ..pre
                },
                false,
            )
        },
        Some(Instruction::SneVxVy) => if vx != vy {
            (skip_view(pre), false)
        } else {
            (pre, false)
        },
        Some(Instruction::LdIAddr) => (CpuView { index: nnn, ..pre }, false),
        Some(Instruction::JpV0Addr) => {
            let src = if pre.config.use_new_jump_instruction {
                vx
            } else {
                pre.v[0]
            };
            let target = src + nnn;
            if target <= 0xFFF {
                (CpuView { pc: target as u16, ..pre }, false)
            } else if pre.config.allow_program_counter_overflow {
                (CpuView { pc: (target % 0x1000) as u16, ..pre }, false)
            } else {
                (CpuView { active: false, ..pre }, false)
            }
        },
        Some(Instruction::RndVxByte) => (CpuView { v: pre.v.update(x, kk & rand), ..pre }, false),
        Some(Instruction::DrwVxVyN) => {
            if RamView::access_wraps(pre.index, n) && !pre.ram.config.allow_heap_overflow {
                (
                    CpuView {
                        active: false,
                        ram: RamView { active: false, ..pre.ram },
                        ..pre
                    },
                    false,
                )
            } else {
                let w = pre.gpu.config.horizontal_resolution as int;
                let h = pre.gpu.config.vertical_resolution as int;
                let sprite = pre.ram.read_result(pre.index, n);
                let drawn = crate::gpu::draw_sprite_spec(
                    pre.gpu.framebuffer,
                    sprite,
                    vx,
                    vy,
                    w,
                    h,
                    pre.gpu.config.wrap_sprite_positions,
                    pre.gpu.config.wrap_sprite_pixels,
                );
                (
                    CpuView {
                        gpu: crate::gpu::GpuView {
                            framebuffer: drawn.0,
                            render_queued: if (pre.gpu.config.wrap_sprite_positions || (vx < w
                                && vy < h)) && pre.gpu.config.render_occasion
                                == crate::config::RenderOccasion::Changes {
                                true
                            } else {
                                pre.gpu.render_queued
                            },
                            ..pre.gpu
                        },
                        v: pre.v.update(
                            0xF,
                            if drawn.1 {
                                1u8
                            } else {
                                0u8
                            },
                        ),
                        ..pre
                    },
                    pre.config.limit_to_one_draw_per_frame && pre.gpu.render_queued,
                )
            }
        },
        Some(Instruction::SkpVx) => if pre.input.key_states[(vx & 0xF) as int] {
            (skip_view(pre), false)
        } else {
            (pre, false)
        },
        Some(Instruction::SknpVx) => if !pre.input.key_states[(vx & 0xF) as int] {
            (skip_view(pre), false)
        } else {
            (pre, false)
        },
        Some(Instruction::LdVxDt) => (CpuView { v: pre.v.update(x, pre.delay_value), ..pre }, false),
        Some(Instruction::LdVxK) => {
            let (iv, res) = pre.input.poll_result();
            match res {
                Some(key) => (CpuView { input: iv, v: pre.v.update(x, key), ..pre }, true),
                None => (CpuView { input: iv, pc: cpu::rewind_pc(pre.pc), ..pre }, true),
            }
        },
        Some(Instruction::LdDtVx) => (CpuView { delay_value: vx, ..pre }, false),
        Some(Instruction::LdStVx) => (CpuView { sound_value: vx, ..pre }, false),
        Some(Instruction::AddIVx) => {
            if pre.index + vx > 0xFFFF && !pre.config.allow_index_register_overflow {
                (CpuView { active: false, ..pre }, false)
            } else {
                let new_index = (pre.index + vx) % 0x10000;
                (
                    CpuView {
                        index: new_index as u16,
                        v: if new_index > 0xFFF && pre.config.set_flag_for_index_overflow {
                            pre.v.update(0xF, 1u8)
                        } else {
                            pre.v
                        },
                        ..pre
                    },
                    false,
                )
            }
        },
        Some(Instruction::LdFVx) => (
            CpuView {
                index: (pre.ram.config.font_starting_address + (vx & 0xF) * 5) as u16,
                ..pre
            },
            false,
        ),
        Some(Instruction::LdBVx) => {
            if RamView::access_wraps(pre.index, 3) && !pre.ram.config.allow_heap_overflow {
                (
                    CpuView {
                        active: false,
                        ram: RamView { active: false, ..pre.ram },
                        ..pre
                    },
                    false,
                )
            } else {
                (
                    CpuView {
                        active: pre.active && pre.ram.active,
                        ram: RamView {
                            heap: pre.ram.heap_after_write(bcd_of(vx), pre.index),
                            ..pre.ram
                        },
                        ..pre
                    },
                    false,
                )
            }
        },
        Some(Instruction::LdIVx) => {
            let vals = pre.v.subrange(0, x + 1);
            let wrote = !RamView::access_wraps(pre.index, x + 1)
                || pre.ram.config.allow_heap_overflow;
            let ram2 = RamView {
                heap: if wrote {
                    pre.ram.heap_after_write(vals, pre.index)
                } else {
                    pre.ram.heap
                },
                active: pre.ram.active && wrote,
                ..pre.ram
            };
            if pre.config.move_index_with_reads {
                if pre.index + x > 0xFFFF && !pre.config.allow_index_register_overflow {
                    (CpuView { ram: ram2, active: false, ..pre }, false)
                } else {
                    (
                        CpuView {
                            ram: ram2,
                            index: ((pre.index + x) % 0x10000) as u16,
                            active: pre.active && pre.ram.active && wrote,
                            ..pre
                        },
                        false,
                    )
                }
            } else {
                (
                    CpuView { ram: ram2, active: pre.active && pre.ram.active && wrote, ..pre },
                    false,
                )
            }
        },
        Some(Instruction::LdVxI) => {
            if RamView::access_wraps(pre.index, x + 1) && !pre.ram.config.allow_heap_overflow {
                (
                    CpuView {
                        active: false,
                        ram: RamView { active: false, ..pre.ram },
                        ..pre
                    },
                    false,
                )
            } else {
                let bytes = pre.ram.read_result(pre.index, x + 1);
                let loaded = Seq::new(
                    16,
                    |i: int|
                        if i <= x {
                            bytes[i]
                        } else {
                            pre.v[i]
                        },
                );
                if pre.config.move_index_with_reads {
                    if pre.index + x > 0xFFFF && !pre.config.allow_index_register_overflow {
                        (CpuView { v: loaded, active: false, ..pre }, false)
                    } else {
                        (
                            CpuView {
                                v: loaded,
                                index: ((pre.index + x) % 0x10000) as u16,
                                ..pre
                            },
                            false,
                        )
                    }
                } else {
                    (CpuView { v: loaded, ..pre }, false)
                }
            }
        },
    }
}

} // verus!
