use vstd::prelude::*;
use crate::config::CPUConfig;
use crate::gpu::GPU;
use crate::input::InputManager;
use crate::instructions::{self, Instruction, Opcode};
use crate::ram::{PROGRAM_START_ADDRESS, RAM};
use crate::timer::{DelayTimer, SoundTimer};

verus! {

#[verifier::external_type_specification]
#[verifier::external_body]
pub struct ExRng(fastrand::Rng);

/// Relies on fastrand::Rng::with_seed: a generator built from the given
/// seed, so that a fixed seed reproduces the same draws.
#[verifier::external_body]
pub(crate) fn rng_with_seed(seed: u64) -> fastrand::Rng {
    fastrand::Rng::with_seed(seed)
}

/// Relies on fastrand::Rng::new: a generator seeded from the host's
/// entropy. Nothing is assumed of its draws.
#[verifier::external_body]
pub(crate) fn rng_from_entropy() -> fastrand::Rng {
    fastrand::Rng::new()
}

/// Relies on fastrand::Rng::u8 over the full range: one pseudo-random byte.
/// Nothing is assumed of its value; callers state what holds of every
/// outcome.
#[verifier::external_body]
pub(crate) fn rng_u8(rng: &mut fastrand::Rng) -> u8 {
    rng.u8(..)
}

/// The interpreter: the registers and the peripherals they act on. The
/// host's pacing loop calls `step` once per tick.
pub struct CPU {
    pub active: bool,
    pub config: CPUConfig,
    pub gpu: GPU,
    pub ram: RAM,
    pub delay_timer: DelayTimer,
    pub sound_timer: SoundTimer,
    pub input_manager: InputManager,
    pub pc: u16,
    pub index: u16,
    pub v: Vec<u8>,
    pub rng: fastrand::Rng,
}

/// The mathematical model of the whole machine. The pseudo-random
/// generator is opaque and has no model; the one instruction that draws
/// from it is specified over every possible draw.
pub struct CpuView {
    pub active: bool,
    pub config: CPUConfig,
    pub gpu: crate::gpu::GpuView,
    pub ram: crate::ram::RamView,
    pub delay_value: u8,
    pub sound_value: u8,
    pub input: crate::input::InputView,
    pub pc: u16,
    pub index: u16,
    pub v: Seq<u8>,
}

impl View for CPU {
    type V = CpuView;

    open spec fn view(&self) -> CpuView {
        CpuView {
            active: self.active,
            config: self.config,
            gpu: self.gpu@,
            ram: self.ram@,
            delay_value: self.delay_timer.value,
            sound_value: self.sound_timer.value,
            input: self.input_manager@,
            pc: self.pc,
            index: self.index,
            v: self.v@,
        }
    }
}

impl CpuView {
    /// Well-formedness of the model.
    pub open spec fn wf(self) -> bool {
        &&& self.pc < 0x1000
        &&& self.v.len() == 16
        &&& self.ram.wf()
        &&& self.gpu.config.horizontal_resolution >= 1
        &&& self.gpu.config.vertical_resolution >= 1
        &&& self.gpu.framebuffer.len() == self.gpu.config.horizontal_resolution
            * self.gpu.config.vertical_resolution
        &&& self.input.wf()
    }

    /// The big-endian 16-bit word at the program counter.
    pub open spec fn fetched_word(self) -> u16
        recommends
            self.ram.heap.len() == 0x1000,
            self.pc < 0x1000,
    {
        (self.ram.heap[self.pc as int] * 256 + self.ram.heap[((self.pc + 1) as int) % 0x1000]) as u16
    }
}

/// The program counter after one two-byte advance, wrapping at the top of
/// the 12-bit address space.
pub open spec fn inc_pc(pc: u16) -> u16 {
    (((pc + 2) as int) % 0x1000) as u16
}

/// The program counter one instruction back, used when a blocked
/// instruction must run again on the next tick.
pub open spec fn rewind_pc(pc: u16) -> u16 {
    (((pc + 0x1000 - 2) as int) % 0x1000) as u16
}

/// What one whole tick does to the machine model, given the byte the
/// generator would hand to `Cxkk`: nothing when inactive; a halt when the
/// program counter is stopped at the top of memory, or when the two-byte
/// fetch violates the heap's wrap policy; a plain advance for a word that
/// decodes to nothing; and otherwise exactly the fetched instruction's own
/// transition. `CPU::step` is held to this for some draw of the generator.
pub open spec fn spec_step(pre: CpuView, rand: u8) -> (CpuView, bool)
    recommends
        pre.wf(),
{
    if !pre.active {
        (pre, false)
    } else if pre.pc >= 0xFFE && !pre.config.allow_program_counter_overflow {
        (CpuView { active: false, ..pre }, false)
    } else if pre.pc + 2 > 0x1000 && !pre.ram.config.allow_heap_overflow {
        (
            CpuView {
                active: false,
                ram: crate::ram::RamView { active: false, ..pre.ram },
                ..pre
            },
            false,
        )
    } else {
        let word = pre.fetched_word();
        let fetched = CpuView { pc: inc_pc(pre.pc), ..pre };
        if instructions::spec_decode(word) is Some {
            instructions::spec_execute(fetched, word, rand)
        } else {
            (fetched, false)
        }
    }
}

/// The machine model after a whole run of ticks, one generator draw per
/// tick.
pub open spec fn spec_run(pre: CpuView, rands: Seq<u8>) -> CpuView
    decreases rands.len(),
{
    if rands.len() == 0 {
        pre
    } else {
        spec_run(spec_step(pre, rands[0]).0, rands.drop_first())
    }
}

impl CPU {
    /// Well-formedness: a 12-bit program counter, sixteen registers, and
    /// well-formed peripherals.
    pub open spec fn wf(self) -> bool {
        &&& self.pc < 0x1000
        &&& self.v@.len() == 16
        &&& self.ram@.wf()
        &&& self.gpu.wf()
        &&& self.input_manager@.wf()
    }

    /// Build the interpreter around its peripherals, the registers zeroed
    /// and the program counter at the program's start. The generator behind
    /// `Cxkk` is seeded from the configured seed, or from the host's entropy
    /// when true randomness is asked for.
    pub fn new(
        config: CPUConfig,
        gpu: GPU,
        ram: RAM,
        delay_timer: DelayTimer,
        sound_timer: SoundTimer,
        input_manager: InputManager,
    ) -> (r: CPU)
        requires
            gpu.wf(),
            ram@.wf(),
            input_manager@.wf(),
        ensures
            r.wf(),
            r.active,
            r.config == config,
            r.gpu == gpu,
            r.ram == ram,
            r.delay_timer == delay_timer,
            r.sound_timer == sound_timer,
            r.input_manager == input_manager,
            r.pc == PROGRAM_START_ADDRESS,
            r.index == 0,
            forall|i: int| 0 <= i < 16 ==> r.v@[i] == 0,
    {
        let rng = if config.use_true_randomness {
            rng_from_entropy()
        } else {
            rng_with_seed(config.fake_randomness_seed)
        };

        let mut v: Vec<u8> = Vec::new();
        let mut i: usize = 0;
        while i < 16
            invariant
                v@.len() == i,
                i <= 16,
                forall|j: int| 0 <= j < i ==> v@[j] == 0,
            decreases 16 - i,
        {
            v.push(0);
            i += 1;
        }

        CPU {
            active: true,
            config,
            gpu,
            ram,
            delay_timer,
            sound_timer,
            input_manager,
            pc: PROGRAM_START_ADDRESS,
            index: 0,
            v,
            rng,
        }
    }

    /// A configuration with every behaviour switch off and reproducible
    /// randomness.
    pub fn new_default_all_false(
        gpu: GPU,
        ram: RAM,
        delay_timer: DelayTimer,
        sound_timer: SoundTimer,
        input_manager: InputManager,
    ) -> (r: CPU)
        requires
            gpu.wf(),
            ram@.wf(),
            input_manager@.wf(),
        ensures
            r.wf(),
            r.active,
            r.gpu == gpu,
            r.ram == ram,
            r.delay_timer == delay_timer,
            r.sound_timer == sound_timer,
            r.input_manager == input_manager,
            r.pc == PROGRAM_START_ADDRESS,
            r.index == 0,
            forall|i: int| 0 <= i < 16 ==> r.v@[i] == 0,
            !r.config.reset_flag_for_bitwise_operations,
            !r.config.use_new_shift_instruction,
            !r.config.use_new_jump_instruction,
            !r.config.set_flag_for_index_overflow,
            !r.config.move_index_with_reads,
            !r.config.limit_to_one_draw_per_frame,
            !r.config.allow_program_counter_overflow,
            !r.config.use_true_randomness,
            !r.config.allow_index_register_overflow,
    {
        CPU::new(
            CPUConfig {
                reset_flag_for_bitwise_operations: false,
                use_new_shift_instruction: false,
                use_new_jump_instruction: false,
                set_flag_for_index_overflow: false,
                move_index_with_reads: false,
                limit_to_one_draw_per_frame: false,
                allow_program_counter_overflow: false,
                use_true_randomness: false,
                fake_randomness_seed: 0,
                allow_index_register_overflow: false,
            },
            gpu,
            ram,
            delay_timer,
            sound_timer,
            input_manager,
        )
    }

    /// A configuration with every behaviour switch on; randomness stays
    /// reproducible so that runs can be replayed.
    pub fn new_default_all_true(
        gpu: GPU,
        ram: RAM,
        delay_timer: DelayTimer,
        sound_timer: SoundTimer,
        input_manager: InputManager,
    ) -> (r: CPU)
        requires
            gpu.wf(),
            ram@.wf(),
            input_manager@.wf(),
        ensures
            r.wf(),
            r.active,
            r.gpu == gpu,
            r.ram == ram,
            r.delay_timer == delay_timer,
            r.sound_timer == sound_timer,
            r.input_manager == input_manager,
            r.pc == PROGRAM_START_ADDRESS,
            r.index == 0,
            forall|i: int| 0 <= i < 16 ==> r.v@[i] == 0,
            r.config.reset_flag_for_bitwise_operations,
            r.config.use_new_shift_instruction,
            r.config.use_new_jump_instruction,
            r.config.set_flag_for_index_overflow,
            r.config.move_index_with_reads,
            r.config.limit_to_one_draw_per_frame,
            r.config.allow_program_counter_overflow,
            !r.config.use_true_randomness,
            r.config.allow_index_register_overflow,
    {
        CPU::new(
            CPUConfig {
                reset_flag_for_bitwise_operations: true,
                use_new_shift_instruction: true,
                use_new_jump_instruction: true,
                set_flag_for_index_overflow: true,
                move_index_with_reads: true,
                limit_to_one_draw_per_frame: true,
                allow_program_counter_overflow: true,
                use_true_randomness: false,
                fake_randomness_seed: 0,
                allow_index_register_overflow: true,
            },
            gpu,
            ram,
            delay_timer,
            sound_timer,
            input_manager,
        )
    }

    pub fn get_pc(&self) -> (r: u16)
        ensures
            r == self.pc,
    {
        self.pc
    }

    /// Jump to an address; callers stay inside the 12-bit address space.
    pub fn set_pc(&mut self, value: u16)
        requires
            value <= 0xFFF,
        ensures
            *final(self) == (CPU { pc: value, ..*old(self) }),
    {
        self.pc = value;
    }

    /// Advance the program counter by one instruction, wrapping past the top
    /// of memory when the policy allows it and otherwise halting.
    pub fn increment_pc(&mut self) -> (ok: bool)
        requires
            old(self).wf(),
        ensures
            final(self).wf(),
            if old(self).pc >= 0xFFE && !old(self).config.allow_program_counter_overflow {
                &&& !ok
                &&& *final(self) == (CPU { active: false, ..*old(self) })
            } else {
                &&& ok
                &&& *final(self) == (CPU { pc: inc_pc(old(self).pc), ..*old(self) })
            },
    {
        if self.pc >= 0xFFE && !self.config.allow_program_counter_overflow {
            self.active = false;
            return false;
        }

        self.pc = (self.pc + 2) % 0x1000;
        true
    }

    pub fn get_index_reg(&self) -> (r: u16)
        ensures
            r == self.index,
    {
        self.index
    }

    /// Point the index register at an address; callers stay inside the
    /// 12-bit address space.
    pub fn set_index_reg(&mut self, value: u16)
        requires
            value <= 0xFFF,
        ensures
            *final(self) == (CPU { index: value, ..*old(self) }),
    {
        self.index = value;
    }

    /// Add to the index register. Overflow past 16 bits halts the machine
    /// unless the policy allows wrapping; on success the result says whether
    /// the register now points past the 12-bit address space.
    pub fn increment_index_reg_by(&mut self, value: u16) -> (r: Option<bool>)
        requires
            old(self).wf(),
        ensures
            final(self).wf(),
            if old(self).index + value > 0xFFFF && !old(self).config.allow_index_register_overflow {
                &&& r is None
                &&& *final(self) == (CPU { active: false, ..*old(self) })
            } else {
                &&& r == Some((old(self).index + value) % 0x10000 > 0xFFF)
                &&& *final(self) == (CPU {
                    index: ((old(self).index + value) % 0x10000) as u16,
                    ..*old(self)
                })
            },
    {
        let sum: u32 = self.index as u32 + value as u32;
        let wrapped: bool = sum > 0xFFFF;

        if wrapped && !self.config.allow_index_register_overflow {
            self.active = false;
            return None;
        }

        self.index = (sum % 0x10000) as u16;
        Some(self.index > 0xFFF)
    }

    pub fn get_v_reg(&self, reg: u8) -> (r: u8)
        requires
            self.wf(),
            reg <= 0xF,
        ensures
            r == self.v@[reg as int],
    {
        self.v[reg as usize]
    }

    pub fn get_v_reg_xy(&self, x: u8, y: u8) -> (r: (u8, u8))
        requires
            self.wf(),
            x <= 0xF,
            y <= 0xF,
        ensures
            r.0 == self.v@[x as int],
            r.1 == self.v@[y as int],
    {
        (self.v[x as usize], self.v[y as usize])
    }

    /// The registers `V[start..end]`, as a fresh vector.
    pub fn get_v_reg_range(&self, start: usize, end: usize) -> (r: Vec<u8>)
        requires
            self.wf(),
            start <= end <= 16,
        ensures
            r@ == self.v@.subrange(start as int, end as int),
    {
        let mut out: Vec<u8> = Vec::new();
        let mut i: usize = start;
        while i < end
            invariant
                self.wf(),
                start <= i <= end <= 16,
                out@.len() == i - start,
                forall|j: int| 0 <= j < out@.len() ==> out@[j] == self.v@[start + j],
            decreases end - i,
        {
            out.push(self.v[i]);
            i += 1;
        }
        proof {
            assert(out@ =~= self.v@.subrange(start as int, end as int));
        }
        out
    }

    pub fn set_v_reg(&mut self, reg: u8, val: u8)
        requires
            old(self).wf(),
            reg <= 0xF,
        ensures
            final(self).wf(),
            *final(self) == (CPU { v: final(self).v, ..*old(self) }),
            final(self).v@ == old(self).v@.update(reg as int, val),
    {
        self.v[reg as usize] = val;
    }

    /// Store `vals` into the registers starting at `reg`.
    pub fn set_v_reg_range(&mut self, reg: u8, vals: &Vec<u8>)
        requires
            old(self).wf(),
            reg + vals@.len() <= 16,
        ensures
            final(self).wf(),
            *final(self) == (CPU { v: final(self).v, ..*old(self) }),
            final(self).v@.len() == 16,
            forall|i: int|
                0 <= i < 16 ==> final(self).v@[i] == if reg <= i < reg + vals@.len() {
                    vals@[i - reg]
                } else {
                    old(self).v@[i]
                },
    {
        let reg_us: usize = reg as usize;
        let mut i: usize = 0;
        while i < vals.len()
            invariant
                self.v@.len() == 16,
                reg_us == reg,
                reg_us + vals@.len() <= 16,
                i <= vals@.len(),
                *self == (CPU { v: self.v, ..*old(self) }),
                forall|j: int|
                    0 <= j < 16 ==> self.v@[j] == if reg_us <= j < reg_us + i {
                        vals@[j - reg_us]
                    } else {
                        old(self).v@[j]
                    },
            decreases vals@.len() - i,
        {
            self.v[reg_us + i] = vals[i];
            i += 1;
        }
    }

    /// Carry a fail-stop raised inside the memory subsystem out to the whole
    /// machine.
    pub fn sync_ram_active(&mut self)
        ensures
            *final(self) == (CPU {
                active: old(self).active && old(self).ram.active,
                ..*old(self)
            }),
    {
        if !self.ram.active {
            self.active = false;
        }
    }

    /// Read the two instruction bytes at the program counter and advance it.
    /// A program counter at the top of memory halts the machine unless the
    /// wrap policy allows it; the read itself follows the heap's wrap
    /// policy.
    pub fn fetch_instruction(&mut self) -> (r: Option<Opcode>)
        requires
            old(self).wf(),
        ensures
            final(self).wf(),
            *final(self) == (CPU {
                pc: final(self).pc,
                active: final(self).active,
                ram: final(self).ram,
                ..*old(self)
            }),
            final(self).ram@ == (crate::ram::RamView {
                active: final(self).ram.active,
                ..old(self).ram@
            }),
            if old(self).pc >= 0xFFE && !old(self).config.allow_program_counter_overflow {
                &&& r is None
                &&& !final(self).active
                &&& final(self).pc == old(self).pc
                &&& final(self).ram == old(self).ram
            } else if old(self).pc + 2 > 0x1000 && !old(self).ram.config.allow_heap_overflow {
                &&& r is None
                &&& !final(self).active
                &&& !final(self).ram.active
                &&& final(self).pc == old(self).pc
            } else {
                &&& r is Some
                &&& r.unwrap().full == old(self)@.fetched_word()
                &&& final(self).active == old(self).active
                &&& final(self).ram@ == old(self).ram@
                &&& final(self).pc == inc_pc(old(self).pc)
            },
    {
        if self.pc >= 0xFFE && !self.config.allow_program_counter_overflow {
            self.active = false;
            return None;
        }

        let bytes = match self.ram.read_bytes(self.pc, 2) {
            Some(b) => b,
            None => {
                self.active = false;
                return None;
            },
        };

        proof {
            let m = 0x1000int;
            assert((old(self).pc + 0) % m == old(self).pc as int) by {
                vstd::arithmetic::div_mod::lemma_small_mod(old(self).pc as nat, m as nat);
            };
        }

        self.pc = (self.pc + 2) % 0x1000;

        Some(Opcode::from_u8s(bytes[0], bytes[1]))
    }

    /// Classify the fetched word; `None` is an unknown opcode and is
    /// skipped.
    pub fn decode_instruction(&self, instruction: &Opcode) -> (r: Option<Instruction>)
        ensures
            r == instructions::spec_decode(instruction.full),
    {
        instructions::get_instruction_function(instruction)
    }

    /// Run one decoded instruction from the system, jump, skip and
    /// immediate-load groups.
    #[verifier::rlimit(100)]
    fn execute_low_group(&mut self, op: &Opcode, kind: Instruction) -> (blocked: bool)
        requires
            old(self).wf(),
            instructions::spec_decode(op.full) == Some(kind),
            kind == Instruction::Cls || kind == Instruction::Ret || kind == Instruction::JpAddr
                || kind == Instruction::CallAddr || kind == Instruction::SeVxByte || kind
                == Instruction::SneVxByte || kind == Instruction::SeVxVy || kind
                == Instruction::LdVxByte || kind == Instruction::AddVxByte,
        ensures
            final(self).wf(),
            exists|rand: u8|
                (final(self)@, blocked) == #[trigger] instructions::spec_execute(
                    old(self)@,
                    op.full,
                    rand,
                ),
            old(self).pc % 2 == 0 && !instructions::sets_pc_directly(kind) ==> final(self).pc % 2
                == 0,
            !blocked,
    {
        let blocked = match kind {
            Instruction::Cls => instructions::i_00E0_CLS(self, op),
            Instruction::Ret => instructions::i_00EE_RET(self, op),
            Instruction::JpAddr => instructions::i_1nnn_JP_addr(self, op),
            Instruction::CallAddr => instructions::i_2nnn_CALL_addr(self, op),
            Instruction::SeVxByte => instructions::i_3xkk_SE_Vx_byte(self, op),
            Instruction::SneVxByte => instructions::i_4xkk_SNE_Vx_byte(self, op),
            Instruction::SeVxVy => instructions::i_5xy0_SE_Vx_Vy(self, op),
            Instruction::LdVxByte => instructions::i_6xkk_LD_Vx_byte(self, op),
            Instruction::AddVxByte => instructions::i_7xkk_ADD_Vx_byte(self, op),
            _ => {
                proof {
                    assert(false);
                }
                false
            },
        };
        proof {
            reveal(instructions::spec_execute);
            let w = op.full;
            let pre = old(self)@;
            if kind == Instruction::Cls {
                assert(self.gpu.framebuffer@ =~= Seq::new(
                    pre.gpu.framebuffer.len(),
                    |i: int| false,
                ));
            }
            assert((self@, blocked) == instructions::spec_execute(pre, w, 0u8));
        }
        blocked
    }

    /// Run one decoded instruction from the register-arithmetic group.
    #[verifier::rlimit(100)]
    fn execute_alu_group(&mut self, op: &Opcode, kind: Instruction) -> (blocked: bool)
        requires
            old(self).wf(),
            instructions::spec_decode(op.full) == Some(kind),
            kind == Instruction::LdVxVy || kind == Instruction::OrVxVy || kind
                == Instruction::AndVxVy || kind == Instruction::XorVxVy || kind
                == Instruction::AddVxVy || kind == Instruction::SubVxVy || kind
                == Instruction::ShrVx || kind == Instruction::SubnVxVy || kind
                == Instruction::ShlVx,
        ensures
            final(self).wf(),
            exists|rand: u8|
                (final(self)@, blocked) == #[trigger] instructions::spec_execute(
                    old(self)@,
                    op.full,
                    rand,
                ),
            final(self).pc == old(self).pc,
            !blocked,
    {
        let blocked = match kind {
            Instruction::LdVxVy => instructions::i_8xy0_LD_Vx_Vy(self, op),
            Instruction::OrVxVy => instructions::i_8xy1_OR_Vx_Vy(self, op),
            Instruction::AndVxVy => instructions::i_8xy2_AND_Vx_Vy(self, op),
            Instruction::XorVxVy => instructions::i_8xy3_XOR_Vx_Vy(self, op),
            Instruction::AddVxVy => instructions::i_8xy4_ADD_Vx_Vy(self, op),
            Instruction::SubVxVy => instructions::i_8xy5_SUB_Vx_Vy(self, op),
            Instruction::ShrVx => instructions::i_8xy6_SHR_Vx(self, op),
            Instruction::SubnVxVy => instructions::i_8xy7_SUBN_Vx_Vy(self, op),
            Instruction::ShlVx => instructions::i_8xyE_SHL_Vx(self, op),
            _ => {
                proof {
                    assert(false);
                }
                false
            },
        };
        proof {
            reveal(instructions::spec_execute);
            assert((self@, blocked) == instructions::spec_execute(old(self)@, op.full, 0u8));
        }
        blocked
    }

    /// Run one decoded instruction from the index, jump-with-offset,
    /// random, draw and key-skip group.
    #[verifier::rlimit(100)]
    fn execute_draw_group(&mut self, op: &Opcode, kind: Instruction) -> (blocked: bool)
        requires
            old(self).wf(),
            instructions::spec_decode(op.full) == Some(kind),
            kind == Instruction::SneVxVy || kind == Instruction::LdIAddr || kind
                == Instruction::JpV0Addr || kind == Instruction::RndVxByte || kind
                == Instruction::DrwVxVyN || kind == Instruction::SkpVx || kind
                == Instruction::SknpVx || kind == Instruction::LdVxDt,
        ensures
            final(self).wf(),
            exists|rand: u8|
                (final(self)@, blocked) == #[trigger] instructions::spec_execute(
                    old(self)@,
                    op.full,
                    rand,
                ),
            old(self).pc % 2 == 0 && !instructions::sets_pc_directly(kind) ==> final(self).pc % 2
                == 0,
            blocked ==> kind == Instruction::DrwVxVyN,
    {
        let blocked = match kind {
            Instruction::SneVxVy => instructions::i_9xy0_SNE_Vx_Vy(self, op),
            Instruction::LdIAddr => instructions::i_Annn_LD_I_addr(self, op),
            Instruction::JpV0Addr => instructions::i_Bnnn_JP_V0_addr(self, op),
            Instruction::RndVxByte => instructions::i_Cxkk_RND_Vx_byte(self, op),
            Instruction::DrwVxVyN => instructions::i_Dxyn_DRW_Vx_Vy_nibble(self, op),
            Instruction::SkpVx => instructions::i_Ex9E_SKP_Vx(self, op),
            Instruction::SknpVx => instructions::i_ExA1_SKNP_Vx(self, op),
            Instruction::LdVxDt => instructions::i_Fx07_LD_Vx_DT(self, op),
            _ => {
                proof {
                    assert(false);
                }
                false
            },
        };
        proof {
            reveal(instructions::spec_execute);
            let w = op.full;
            let pre = old(self)@;
            if kind == Instruction::RndVxByte {
                let witness = self.v@[instructions::op_x(w)];
                let kk = instructions::op_kk(w);
                assert(witness & !kk == 0 ==> kk & witness == witness) by (bit_vector);
                assert(self.v@ =~= pre.v.update(instructions::op_x(w), kk & witness));
                assert((self@, blocked) == instructions::spec_execute(pre, w, witness));
            } else {
                assert((self@, blocked) == instructions::spec_execute(pre, w, 0u8));
            }
        }
        blocked
    }

    /// Run one decoded instruction from the key-wait, timer and
    /// memory-transfer group.
    #[verifier::rlimit(100)]
    fn execute_transfer_group(&mut self, op: &Opcode, kind: Instruction) -> (blocked: bool)
        requires
            old(self).wf(),
            instructions::spec_decode(op.full) == Some(kind),
            kind == Instruction::LdVxK || kind == Instruction::LdDtVx || kind
                == Instruction::LdStVx || kind == Instruction::AddIVx || kind
                == Instruction::LdFVx || kind == Instruction::LdBVx || kind == Instruction::LdIVx
                || kind == Instruction::LdVxI,
        ensures
            final(self).wf(),
            exists|rand: u8|
                (final(self)@, blocked) == #[trigger] instructions::spec_execute(
                    old(self)@,
                    op.full,
                    rand,
                ),
            old(self).pc % 2 == 0 ==> final(self).pc % 2 == 0,
            blocked ==> kind == Instruction::LdVxK,
    {
        let blocked = match kind {
            Instruction::LdVxK => instructions::i_Fx0A_LD_Vx_K(self, op),
            Instruction::LdDtVx => instructions::i_Fx15_LD_DT_Vx(self, op),
            Instruction::LdStVx => instructions::i_Fx18_LD_ST_Vx(self, op),
            Instruction::AddIVx => instructions::i_Fx1E_ADD_I_Vx(self, op),
            Instruction::LdFVx => instructions::i_Fx29_LD_F_Vx(self, op),
            Instruction::LdBVx => instructions::i_Fx33_LD_B_Vx(self, op),
            Instruction::LdIVx => instructions::i_Fx55_LD_I_Vx(self, op),
            Instruction::LdVxI => instructions::i_Fx65_LD_Vx_I(self, op),
            _ => {
                proof {
                    assert(false);
                }
                false
            },
        };
        proof {
            reveal(instructions::spec_execute);
            let w = op.full;
            let pre = old(self)@;
            if kind == Instruction::LdVxI {
                let x = instructions::op_x(w);
                if !(crate::ram::RamView::access_wraps(pre.index, x + 1)
                    && !pre.ram.config.allow_heap_overflow) {
                    let bytes = pre.ram.read_result(pre.index, x + 1);
                    assert(self.v@ =~= Seq::new(
                        16,
                        |i: int|
                            if i <= x {
                                bytes[i]
                            } else {
                                pre.v[i]
                            },
                    ));
                }
            }
            assert((self@, blocked) == instructions::spec_execute(pre, w, 0u8));
        }
        blocked
    }

    /// Run one decoded instruction: the machine moves exactly as
    /// `spec_execute` says for the fetched word, for some draw of the
    /// generator (only `Cxkk` looks at it). Every instruction leaves the
    /// program counter inside the 12-bit space, and none but the four jumps
    /// moves it off the instruction grid.
    pub fn execute_instruction(&mut self, op: &Opcode, kind: Instruction) -> (blocked: bool)
        requires
            old(self).wf(),
            instructions::spec_decode(op.full) == Some(kind),
        ensures
            final(self).wf(),
            exists|rand: u8|
                (final(self)@, blocked) == #[trigger] instructions::spec_execute(
                    old(self)@,
                    op.full,
                    rand,
                ),
            old(self).pc % 2 == 0 && !instructions::sets_pc_directly(kind) ==> final(self).pc % 2
                == 0,
            blocked ==> (kind == Instruction::LdVxK || kind == Instruction::DrwVxVyN),
    {
        match kind {
            Instruction::Cls
            | Instruction::Ret
            | Instruction::JpAddr
            | Instruction::CallAddr
            | Instruction::SeVxByte
            | Instruction::SneVxByte
            | Instruction::SeVxVy
            | Instruction::LdVxByte
            | Instruction::AddVxByte => self.execute_low_group(op, kind),
            Instruction::LdVxVy
            | Instruction::OrVxVy
            | Instruction::AndVxVy
            | Instruction::XorVxVy
            | Instruction::AddVxVy
            | Instruction::SubVxVy
            | Instruction::ShrVx
            | Instruction::SubnVxVy
            | Instruction::ShlVx => self.execute_alu_group(op, kind),
            Instruction::SneVxVy
            | Instruction::LdIAddr
            | Instruction::JpV0Addr
            | Instruction::RndVxByte
            | Instruction::DrwVxVyN
            | Instruction::SkpVx
            | Instruction::SknpVx
            | Instruction::LdVxDt => self.execute_draw_group(op, kind),
            Instruction::LdVxK
            | Instruction::LdDtVx
            | Instruction::LdStVx
            | Instruction::AddIVx
            | Instruction::LdFVx
            | Instruction::LdBVx
            | Instruction::LdIVx
            | Instruction::LdVxI => self.execute_transfer_group(op, kind),
        }
    }

    /// Whether fetching at the current program counter succeeds: the
    /// counter is not stopped at the top of memory, and the two-byte read
    /// does not violate the heap's wrap policy.
    pub open spec fn fetch_succeeds(self) -> bool {
        &&& !(self.pc >= 0xFFE && !self.config.allow_program_counter_overflow)
        &&& !(self.pc + 2 > 0x1000 && !self.ram.config.allow_heap_overflow)
    }

    /// One tick of the interpreter: fetch, decode, execute. An inactive
    /// machine does nothing. A failed fetch halts; an unknown opcode is
    /// skipped; a known one moves the machine exactly as `spec_step` says,
    /// for some draw of the generator. The result says whether the tick
    /// parked the machine waiting for something outside it, so the pacing
    /// loop must not catch up.
    ///
    /// After every tick the program counter is inside the 12-bit space, and
    /// it stays on the two-byte instruction grid unless the instruction was
    /// one of the four jumps.
    #[verifier::rlimit(100)]
    pub fn step(&mut self) -> (blocked: bool)
        requires
            old(self).wf(),
        ensures
            final(self).wf(),
            final(self).pc < 0x1000,
            exists|rand: u8| (final(self)@, blocked) == #[trigger] spec_step(old(self)@, rand),
            !old(self).active ==> *final(self) == *old(self) && !blocked,
            old(self).active && old(self).pc >= 0xFFE && !old(
                self,
            ).config.allow_program_counter_overflow ==> !final(self).active && final(self).pc
                == old(self).pc && !blocked,
            old(self).active && !old(self).fetch_succeeds() ==> (!final(self).active
                && final(self).pc == old(self).pc && !blocked),
            old(self).active && old(self).fetch_succeeds() && instructions::spec_decode(
                old(self)@.fetched_word(),
            ) is None ==> (*final(self) == (CPU {
                pc: inc_pc(old(self).pc),
                ram: final(self).ram,
                ..*old(self)
            }) && final(self).ram@ == old(self).ram@ && !blocked),
            old(self).active && old(self).pc % 2 == 0 && !instructions::sets_pc_directly_word(
                old(self)@.fetched_word(),
            ) ==> final(self).pc % 2 == 0,
            blocked ==> old(self).active && (instructions::spec_decode(
                old(self)@.fetched_word(),
            ) == Some(Instruction::LdVxK) || instructions::spec_decode(
                old(self)@.fetched_word(),
            ) == Some(Instruction::DrwVxVyN)),
    {
        if !self.active {
            proof {
                assert((self@, false) == spec_step(old(self)@, 0u8));
            }
            return false;
        }

        let op = match self.fetch_instruction() {
            Some(op) => op,
            None => {
                proof {
                    assert((self@, false) == spec_step(old(self)@, 0u8));
                }
                return false;
            },
        };

        let ghost mid = self@;
        proof {
            assert(mid == (CpuView { pc: inc_pc(old(self).pc), ..old(self)@ }));
            assert(op.full == old(self)@.fetched_word());
        }

        let kind = match self.decode_instruction(&op) {
            Some(k) => k,
            None => {
                proof {
                    assert((self@, false) == spec_step(old(self)@, 0u8));
                }
                return false;
            },
        };

        let blocked = self.execute_instruction(&op, kind);
        proof {
            let r = choose|rand: u8|
                (self@, blocked) == #[trigger] instructions::spec_execute(mid, op.full, rand);
            assert((self@, blocked) == spec_step(old(self)@, r));
        }
        blocked
    }

    /// A machine whose program counter sits on a `1nnn` jump to its own
    /// address is a fixed point: one tick leaves the whole model unchanged,
    /// whatever the generator would have drawn.
    pub proof fn lemma_jp_self_loop(pre: CpuView, rand: u8)
        requires
            pre.active,
            pre.ram.heap.len() == 0x1000,
            pre.pc < 0xFFE,
            pre.fetched_word() / 0x1000 == 0x1,
            instructions::op_addr(pre.fetched_word()) == pre.pc,
        ensures
            spec_step(pre, rand) == (pre, false),
    {
        reveal(instructions::spec_execute);
        let word = pre.fetched_word();
        let fetched = CpuView { pc: inc_pc(pre.pc), ..pre };
        assert(instructions::spec_decode(word) == Some(Instruction::JpAddr));
        assert(spec_step(pre, rand) == (CpuView { pc: instructions::op_addr(word), ..fetched }, false));
    }

    /// The self-loop holds over any whole run: after any number of ticks,
    /// with any draws, the machine still sits unchanged on the jump -- the
    /// program counter is still the jump's own address and the machine is
    /// still active.
    pub proof fn lemma_jp_self_loop_run(pre: CpuView, rands: Seq<u8>)
        requires
            pre.active,
            pre.ram.heap.len() == 0x1000,
            pre.pc < 0xFFE,
            pre.fetched_word() / 0x1000 == 0x1,
            instructions::op_addr(pre.fetched_word()) == pre.pc,
        ensures
            spec_run(pre, rands) == pre,
        decreases rands.len(),
    {
        if rands.len() > 0 {
            CPU::lemma_jp_self_loop(pre, rands[0]);
            CPU::lemma_jp_self_loop_run(pre, rands.drop_first());
        }
    }
}

} // verus!
