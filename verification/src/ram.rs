use vstd::prelude::*;
use vstd::arithmetic::div_mod::{
    lemma_fundamental_div_mod, lemma_mod_division_less_than_divisor, lemma_mod_multiples_vanish,
};

verus! {

pub const PROGRAM_START_ADDRESS: u16 = 0x200;

pub const HEAP_SIZE: usize = 0x1000;

pub const FONT_TABLE_SIZE: usize = 80;

/// The memory subsystem's switches: the return stack's capacity, the two
/// wrap-on-overflow policies, and where the sixteen 5-byte font glyphs sit.
pub struct RAMConfig {
    pub stack_size: usize,
    pub allow_stack_overflow: bool,
    pub allow_heap_overflow: bool,
    pub font_starting_address: u16,
    pub font_data: [u8; 80],
}

/// The 4 KiB byte memory and the fixed-capacity stack of 12-bit return
/// addresses. `active` drops to false on the first violation of a policy
/// that forbids wrapping; the machine then halts.
pub struct RAM {
    pub active: bool,
    pub config: RAMConfig,
    pub heap: Vec<u8>,
    pub stack: Vec<u16>,
    pub stack_ptr: usize,
}

/// The mathematical model of the memory subsystem.
pub struct RamView {
    pub active: bool,
    pub config: RAMConfig,
    pub heap: Seq<u8>,
    pub stack: Seq<u16>,
    pub stack_ptr: int,
}

impl View for RAM {
    type V = RamView;

    open spec fn view(&self) -> RamView {
        RamView {
            active: self.active,
            config: self.config,
            heap: self.heap@,
            stack: self.stack@,
            stack_ptr: self.stack_ptr as int,
        }
    }
}

impl RamView {
    /// Well-formedness: full-size heap, stack at its configured capacity with
    /// the pointer inside [0, capacity], a font base that leaves room for the
    /// 80-byte table, and only 12-bit addresses stored on the stack.
    pub open spec fn wf(self) -> bool {
        &&& self.heap.len() == HEAP_SIZE
        &&& self.stack.len() == self.config.stack_size
        &&& self.config.stack_size >= 1
        &&& 0 <= self.stack_ptr <= self.config.stack_size
        &&& self.config.font_starting_address <= 0xFB0
        &&& forall|i: int| 0 <= i < self.stack.len() ==> self.stack[i] < 0x1000
    }

    /// One push: store below a free slot, or apply the overwrite-slot-zero
    /// policy, or fail-stop.
    pub open spec fn push_result(self, val: u16) -> (RamView, bool) {
        if self.stack_ptr == self.config.stack_size {
            if !self.config.allow_stack_overflow {
                (RamView { active: false, ..self }, false)
            } else {
                (RamView { stack: self.stack.update(0, val), stack_ptr: 1, ..self }, true)
            }
        } else {
            (
                RamView {
                    stack: self.stack.update(self.stack_ptr, val),
                    stack_ptr: self.stack_ptr + 1,
                    ..self
                },
                true,
            )
        }
    }

    /// One pop: read below the pointer, or apply the wrap-to-top policy, or
    /// fail-stop.
    pub open spec fn pop_result(self) -> (RamView, Option<u16>) {
        if self.stack_ptr == 0 {
            if !self.config.allow_stack_overflow {
                (RamView { active: false, ..self }, None)
            } else {
                (
                    RamView { stack_ptr: self.config.stack_size - 1, ..self },
                    Some(self.stack[self.config.stack_size - 1]),
                )
            }
        } else {
            (RamView { stack_ptr: self.stack_ptr - 1, ..self }, Some(self.stack[self.stack_ptr - 1]))
        }
    }

    /// Whether an `count`-byte access starting at `addr` crosses the top of
    /// the address space.
    pub open spec fn access_wraps(addr: u16, count: int) -> bool {
        addr + count > HEAP_SIZE
    }

    /// The bytes an `count`-byte read starting at `addr` returns; addresses
    /// are taken modulo the heap size, so the suffix starts over at 0x000.
    pub open spec fn read_result(self, addr: u16, count: int) -> Seq<u8> {
        Seq::new(count as nat, |i: int| self.heap[(addr + i) % (HEAP_SIZE as int)])
    }

    /// The heap after writing `vals` starting at `addr`, the suffix wrapping
    /// to 0x000.
    pub open spec fn heap_after_write(self, vals: Seq<u8>, addr: u16) -> Seq<u8> {
        Seq::new(
            self.heap.len(),
            |a: int|
                {
                    let off = (a - addr) % (HEAP_SIZE as int);
                    if off < vals.len() {
                        vals[off]
                    } else {
                        self.heap[a]
                    }
                },
        )
    }
}

/// For a heap-sized window, the wrapped address `(base + i) % HEAP_SIZE`
/// lands on cell `a` exactly when `i` is the wrapped offset of `a` from
/// `base`.
pub proof fn lemma_wrap_offset(base: int, i: int, a: int)
    requires
        base >= 0,
        0 <= i < HEAP_SIZE,
        0 <= a < HEAP_SIZE,
    ensures
        ((base + i) % (HEAP_SIZE as int) == a) <==> ((a - base) % (HEAP_SIZE as int) == i),
{
    let m = HEAP_SIZE as int;
    if (base + i) % m == a {
        lemma_fundamental_div_mod(base + i, m);
        let q = (base + i) / m;
        assert(a - base == i - m * q);
        lemma_mod_multiples_vanish(-q, i, m);
        assert((m * -q + i) % m == i % m);
        assert(i % m == i) by {
            lemma_fundamental_div_mod(i, m);
            lemma_mod_division_less_than_divisor(i, m);
            if i / m != 0 {
                assert(i == m * (i / m) + i % m);
            }
        };
    }
    if (a - base) % m == i {
        lemma_fundamental_div_mod(a - base, m);
        let q = (a - base) / m;
        assert(a - base == m * q + i);
        assert(base + i == a - m * q);
        lemma_mod_multiples_vanish(-q, a, m);
        assert((m * -q + a) % m == a % m);
        assert(a % m == a) by {
            lemma_fundamental_div_mod(a, m);
            lemma_mod_division_less_than_divisor(a, m);
            if a / m != 0 {
                assert(a == m * (a / m) + a % m);
            }
        };
    }
}

impl RAM {
    /// Build the memory subsystem: a zeroed heap with the font table copied
    /// to its configured base, and an empty stack of the configured capacity.
    /// Rejects a zero-capacity stack and a font base past 0xFB0.
    pub fn try_new(config: RAMConfig) -> (r: Option<RAM>)
        ensures
            r is Some <==> (config.stack_size >= 1 && config.font_starting_address <= 0xFB0),
            r is Some ==> {
                let ram = r.unwrap();
                &&& ram@.wf()
                &&& ram.active
                &&& ram.config == config
                &&& ram.stack_ptr == 0
                &&& forall|i: int| 0 <= i < ram@.stack.len() ==> ram@.stack[i] == 0
                &&& forall|a: int|
                    0 <= a < HEAP_SIZE ==> ram@.heap[a] == {
                        if config.font_starting_address <= a < config.font_starting_address + 80 {
                            config.font_data@[a - config.font_starting_address]
                        } else {
                            0u8
                        }
                    }
            },
    {
        if config.stack_size == 0 {
            return None;
        }
        if config.font_starting_address > 0xFB0 {
            return None;
        }

        let mut heap: Vec<u8> = Vec::new();
        let mut a: usize = 0;
        while a < HEAP_SIZE
            invariant
                heap@.len() == a,
                a <= HEAP_SIZE,
                forall|j: int| 0 <= j < a ==> heap@[j] == 0u8,
            decreases HEAP_SIZE - a,
        {
            heap.push(0);
            a += 1;
        }

        let font_start: usize = config.font_starting_address as usize;
        let mut i: usize = 0;
        while i < FONT_TABLE_SIZE
            invariant
                heap@.len() == HEAP_SIZE,
                i <= FONT_TABLE_SIZE,
                font_start == config.font_starting_address,
                font_start + FONT_TABLE_SIZE <= HEAP_SIZE,
                forall|j: int|
                    font_start <= j < font_start + i ==> heap@[j] == config.font_data@[j
                        - font_start],
                forall|j: int|
                    0 <= j < HEAP_SIZE && !(font_start <= j < font_start + i) ==> heap@[j] == 0u8,
            decreases FONT_TABLE_SIZE - i,
        {
            heap[font_start + i] = config.font_data[i];
            i += 1;
        }

        let mut stack: Vec<u16> = Vec::new();
        let mut s: usize = 0;
        let stack_size: usize = config.stack_size;
        while s < stack_size
            invariant
                stack@.len() == s,
                s <= stack_size,
                forall|j: int| 0 <= j < s ==> stack@[j] == 0u16,
            decreases stack_size - s,
        {
            stack.push(0);
            s += 1;
        }

        Some(RAM { active: true, config, heap, stack, stack_ptr: 0 })
    }

    /// A 16-slot non-wrapping configuration with the font at 0x000.
    pub fn new_default_conservative() -> (r: RAM)
        ensures
            r@.wf(),
            r.active,
            r.stack_ptr == 0,
            r.config.stack_size == 16,
            !r.config.allow_stack_overflow,
            !r.config.allow_heap_overflow,
            r.config.font_starting_address == 0,
            forall|i: int| 0 <= i < 80 ==> r.config.font_data@[i] == 0x67u8,
    {
        let config = RAMConfig {
            stack_size: 16,
            allow_stack_overflow: false,
            allow_heap_overflow: false,
            font_starting_address: 0,
            font_data: vstd::array::array_fill_for_copy_types(0x67),
        };
        proof {
            vstd::array::axiom_spec_array_fill_for_copy_type::<u8, 80>(0x67);
        }
        RAM::try_new(config).unwrap()
    }

    /// A 16-slot configuration with both wrap policies switched on.
    pub fn new_default_liberal() -> (r: RAM)
        ensures
            r@.wf(),
            r.active,
            r.stack_ptr == 0,
            r.config.stack_size == 16,
            r.config.allow_stack_overflow,
            r.config.allow_heap_overflow,
            r.config.font_starting_address == 0,
            forall|i: int| 0 <= i < 80 ==> r.config.font_data@[i] == 0x67u8,
    {
        let config = RAMConfig {
            stack_size: 16,
            allow_stack_overflow: true,
            allow_heap_overflow: true,
            font_starting_address: 0,
            font_data: vstd::array::array_fill_for_copy_types(0x67),
        };
        proof {
            vstd::array::axiom_spec_array_fill_for_copy_type::<u8, 80>(0x67);
        }
        RAM::try_new(config).unwrap()
    }

    /// Copy a program image to PROGRAM_START_ADDRESS; an image that runs past
    /// the top of memory is rejected and halts the machine.
    pub fn load_program(&mut self, program: &Vec<u8>) -> (ok: bool)
        requires
            old(self)@.wf(),
        ensures
            final(self)@.wf(),
            final(self).config == old(self).config,
            final(self)@.stack == old(self)@.stack,
            final(self).stack_ptr == old(self).stack_ptr,
            ok <==> PROGRAM_START_ADDRESS + program@.len() <= HEAP_SIZE,
            ok ==> {
                &&& final(self).active == old(self).active
                &&& forall|a: int|
                    0 <= a < HEAP_SIZE ==> final(self)@.heap[a] == {
                        if PROGRAM_START_ADDRESS <= a < PROGRAM_START_ADDRESS + program@.len() {
                            program@[a - PROGRAM_START_ADDRESS]
                        } else {
                            old(self)@.heap[a]
                        }
                    }
            },
            !ok ==> !final(self).active && final(self)@.heap == old(self)@.heap,
    {
        let start: usize = PROGRAM_START_ADDRESS as usize;
        if program.len() > HEAP_SIZE - start {
            self.active = false;
            return false;
        }

        let mut i: usize = 0;
        while i < program.len()
            invariant
                self.heap@.len() == HEAP_SIZE,
                start == PROGRAM_START_ADDRESS,
                i <= program@.len(),
                start + program@.len() <= HEAP_SIZE,
                self.active == old(self).active,
                self.config == old(self).config,
                self.stack == old(self).stack,
                self.stack_ptr == old(self).stack_ptr,
                forall|j: int| start <= j < start + i ==> self.heap@[j] == program@[j - start],
                forall|a: int|
                    0 <= a < HEAP_SIZE && !(start <= a < start + i) ==> self.heap@[a] == old(
                        self,
                    )@.heap[a],
            decreases program@.len() - i,
        {
            self.heap[start + i] = program[i];
            i += 1;
        }
        true
    }

    /// The address of the 5-byte glyph for one hex digit.
    pub fn get_hex_digit_address(&self, digit: u8) -> (r: u16)
        requires
            self@.wf(),
            digit <= 0xF,
        ensures
            r == self.config.font_starting_address + digit * 5,
            r < 0x1000,
    {
        self.config.font_starting_address + (digit as u16) * 5
    }

    /// Write one byte; the caller keeps the address inside the heap.
    pub fn write_byte(&mut self, val: u8, addr: u16)
        requires
            old(self)@.wf(),
            addr < 0x1000,
        ensures
            final(self)@.wf(),
            final(self)@ == (RamView {
                heap: old(self)@.heap.update(addr as int, val),
                ..old(self)@
            }),
    {
        self.heap[addr as usize] = val;
    }

    /// Read one byte; the caller keeps the address inside the heap.
    pub fn read_byte(&self, addr: u16) -> (r: u8)
        requires
            self@.wf(),
            addr < 0x1000,
        ensures
            r == self@.heap[addr as int],
    {
        self.heap[addr as usize]
    }

    /// Write a run of bytes starting at `addr`. A run that crosses the top of
    /// memory wraps to 0x000 when the policy allows it and otherwise
    /// fail-stops with the heap untouched.
    pub fn write_bytes(&mut self, vals: &Vec<u8>, addr: u16) -> (ok: bool)
        requires
            old(self)@.wf(),
            vals@.len() <= HEAP_SIZE,
        ensures
            final(self)@.wf(),
            final(self).config == old(self).config,
            final(self)@.stack == old(self)@.stack,
            final(self).stack_ptr == old(self).stack_ptr,
            ok <==> (!RamView::access_wraps(addr, vals@.len() as int)
                || old(self).config.allow_heap_overflow),
            ok ==> final(self).active == old(self).active && final(self)@.heap == old(
                self,
            )@.heap_after_write(vals@, addr),
            !ok ==> !final(self).active && final(self)@.heap == old(self)@.heap,
    {
        let addr_us: usize = addr as usize;
        let count: usize = vals.len();

        if addr_us + count > HEAP_SIZE && !self.config.allow_heap_overflow {
            self.active = false;
            return false;
        }

        let mut i: usize = 0;
        while i < count
            invariant
                self@.wf(),
                self.heap@.len() == HEAP_SIZE,
                addr_us == addr,
                count == vals@.len() <= HEAP_SIZE,
                i <= count,
                self.active == old(self).active,
                self.config == old(self).config,
                self.stack == old(self).stack,
                self.stack_ptr == old(self).stack_ptr,
                forall|j: int|
                    0 <= j < i ==> self.heap@[(addr + j) % (HEAP_SIZE as int)] == vals@[j],
                forall|a: int|
                    0 <= a < HEAP_SIZE && (a - addr) % (HEAP_SIZE as int) >= i ==> self.heap@[a]
                        == old(self)@.heap[a],
            decreases count - i,
        {
            let idx: usize = (addr_us + i) % HEAP_SIZE;
            proof {
                let m = HEAP_SIZE as int;
                lemma_mod_division_less_than_divisor(addr + i, m);
                assert forall|j: int| 0 <= j < i implies #[trigger] ((addr + j) % m) != idx as int by {
                    lemma_mod_division_less_than_divisor(addr + j, m);
                    lemma_wrap_offset(addr as int, j, (addr + j) % m);
                    lemma_wrap_offset(addr as int, i as int, idx as int);
                }
                lemma_wrap_offset(addr as int, i as int, idx as int);
                assert forall|a: int|
                    0 <= a < HEAP_SIZE && #[trigger] ((a - addr) % m) >= i + 1 implies a
                    != idx as int by {
                    lemma_wrap_offset(addr as int, i as int, a);
                }
            }
            self.heap[idx] = vals[i];
            i += 1;
        }

        proof {
            let m = HEAP_SIZE as int;
            assert forall|a: int| 0 <= a < HEAP_SIZE implies self.heap@[a] == old(
                self,
            )@.heap_after_write(vals@, addr)[a] by {
                lemma_mod_division_less_than_divisor(a - addr, m);
                assert((a - addr) % m >= 0);
                let off = (a - addr) % m;
                if off < vals@.len() {
                    lemma_wrap_offset(addr as int, off, a);
                    assert((addr + off) % m == a);
                }
            }
            assert(self.heap@ =~= old(self)@.heap_after_write(vals@, addr));
        }
        true
    }

    /// Read a run of bytes starting at `addr`. A run that crosses the top of
    /// memory wraps to 0x000 when the policy allows it and otherwise
    /// fail-stops.
    pub fn read_bytes(&mut self, addr: u16, count: u16) -> (r: Option<Vec<u8>>)
        requires
            old(self)@.wf(),
            count <= HEAP_SIZE,
        ensures
            final(self)@.wf(),
            final(self).config == old(self).config,
            final(self)@.stack == old(self)@.stack,
            final(self).stack_ptr == old(self).stack_ptr,
            final(self)@.heap == old(self)@.heap,
            r is Some <==> (!RamView::access_wraps(addr, count as int)
                || old(self).config.allow_heap_overflow),
            r is Some ==> final(self).active == old(self).active && r.unwrap()@ == old(
                self,
            )@.read_result(addr, count as int),
            r is None ==> !final(self).active,
    {
        let addr_us: usize = addr as usize;
        let count_us: usize = count as usize;

        if addr_us + count_us > HEAP_SIZE && !self.config.allow_heap_overflow {
            self.active = false;
            return None;
        }

        let mut bytes: Vec<u8> = Vec::new();
        let mut i: usize = 0;
        while i < count_us
            invariant
                self == old(self),
                self.heap@.len() == HEAP_SIZE,
                addr_us == addr,
                count_us == count,
                i <= count_us,
                bytes@.len() == i,
                forall|j: int|
                    0 <= j < i ==> bytes@[j] == self.heap@[(addr + j) % (HEAP_SIZE as int)],
            decreases count_us - i,
        {
            let idx: usize = (addr_us + i) % HEAP_SIZE;
            proof {
                lemma_mod_division_less_than_divisor(addr + i, HEAP_SIZE as int);
            }
            bytes.push(self.heap[idx]);
            i += 1;
        }
        proof {
            assert(bytes@ =~= old(self)@.read_result(addr, count as int));
        }
        Some(bytes)
    }

    /// Push a return address, overwriting slot zero when the stack is full
    /// and the wrap policy allows it; otherwise a full stack fail-stops.
    pub fn push_to_stack(&mut self, val: u16) -> (ok: bool)
        requires
            old(self)@.wf(),
            val < 0x1000,
        ensures
            final(self)@.wf(),
            (final(self)@, ok) == old(self)@.push_result(val),
    {
        if self.stack_ptr == self.config.stack_size {
            if !self.config.allow_stack_overflow {
                self.active = false;
                return false;
            }

            self.stack[0] = val;
            self.stack_ptr = 1;
            return true;
        }

        self.stack[self.stack_ptr] = val;
        self.stack_ptr = self.stack_ptr + 1;
        true
    }

    /// Pop a return address, wrapping to the top slot when the stack is
    /// empty and the wrap policy allows it; otherwise an empty stack
    /// fail-stops.
    pub fn pop_from_stack(&mut self) -> (r: Option<u16>)
        requires
            old(self)@.wf(),
        ensures
            final(self)@.wf(),
            (final(self)@, r) == old(self)@.pop_result(),
            r is Some ==> r.unwrap() < 0x1000,
    {
        if self.stack_ptr == 0 {
            if !self.config.allow_stack_overflow {
                self.active = false;
                return None;
            }

            self.stack_ptr = self.config.stack_size - 1;
            return Some(self.stack[self.stack_ptr]);
        }

        self.stack_ptr = self.stack_ptr - 1;
        Some(self.stack[self.stack_ptr])
    }
}

/// With wrapping disallowed, a push onto a full stack fail-stops; with it
/// allowed, the push lands in slot zero and the next pop returns exactly the
/// value that was pushed.
pub proof fn lemma_stack_overflow_policy(ram: RamView, val: u16)
    requires
        ram.wf(),
        ram.stack_ptr == ram.config.stack_size,
    ensures
        !ram.config.allow_stack_overflow ==> !ram.push_result(val).0.active && !ram.push_result(
            val,
        ).1,
        ram.config.allow_stack_overflow ==> {
            let (pushed, ok) = ram.push_result(val);
            &&& ok
            &&& pushed.stack[0] == val
            &&& pushed.stack_ptr == 1
            &&& pushed.pop_result().1 == Some(val)
        },
{
}

/// With wrapping enabled, a read of `n` bytes starting `k` short of the top
/// of memory returns the top `k` bytes followed by the first `n - k` bytes.
pub proof fn lemma_memory_wrap_read(ram: RamView, k: int, n: int)
    requires
        ram.wf(),
        0 < k < n <= HEAP_SIZE,
    ensures
        ram.read_result((HEAP_SIZE - k) as u16, n) == ram.heap.subrange(
            HEAP_SIZE - k,
            HEAP_SIZE as int,
        ) + ram.heap.subrange(0, n - k),
{
    let addr = HEAP_SIZE - k;
    let m = HEAP_SIZE as int;
    assert forall|i: int| 0 <= i < n implies #[trigger] ram.read_result(addr as u16, n)[i] == (
    ram.heap.subrange(HEAP_SIZE - k, HEAP_SIZE as int) + ram.heap.subrange(0, n - k))[i] by {
        if i < k {
            assert(0 <= addr + i < m);
            assert((addr + i) % m == addr + i) by {
                lemma_fundamental_div_mod(addr + i, m);
                lemma_mod_division_less_than_divisor(addr + i, m);
            };
        } else {
            assert(addr + i == m + (i - k));
            assert((addr + i) % m == i - k) by {
                lemma_mod_multiples_vanish(1, i - k, m);
                lemma_fundamental_div_mod(i - k, m);
                lemma_mod_division_less_than_divisor(i - k, m);
            };
        }
    }
    assert(ram.read_result(addr as u16, n) =~= ram.heap.subrange(HEAP_SIZE - k, HEAP_SIZE as int)
        + ram.heap.subrange(0, n - k));
}

impl RamView {
    /// The state and overall success after pushing a whole sequence of
    /// return addresses, first element first.
    pub open spec fn push_seq_result(self, vals: Seq<u16>) -> (RamView, bool)
        decreases vals.len(),
    {
        if vals.len() == 0 {
            (self, true)
        } else {
            let (first, ok) = self.push_result(vals[0]);
            let (rest, rest_ok) = first.push_seq_result(vals.drop_first());
            (rest, ok && rest_ok)
        }
    }
}

/// A push keeps the model well-formed and never revives a halted machine.
proof fn lemma_push_preserves(ram: RamView, val: u16)
    requires
        ram.wf(),
        val < 0x1000,
    ensures
        ram.push_result(val).0.wf(),
        !ram.active ==> !ram.push_result(val).0.active,
{
}

/// With wrapping disallowed, any sequence of pushes that would raise the
/// pointer past the stack's capacity fail-stops: the push onto the full
/// stack fails and the machine is halted from then on.
pub proof fn lemma_stack_push_sequence_halts(ram: RamView, vals: Seq<u16>)
    requires
        ram.wf(),
        !ram.config.allow_stack_overflow,
        forall|i: int| 0 <= i < vals.len() ==> vals[i] < 0x1000,
        ram.stack_ptr + vals.len() > ram.config.stack_size,
    ensures
        !ram.push_seq_result(vals).1,
        !ram.push_seq_result(vals).0.active,
    decreases vals.len(),
{
    let (first, ok) = ram.push_result(vals[0]);
    lemma_push_preserves(ram, vals[0]);
    if ram.stack_ptr == ram.config.stack_size {
        assert(!ok && !first.active);
        lemma_push_seq_keeps_inactive(first, vals.drop_first());
    } else {
        lemma_stack_push_sequence_halts(first, vals.drop_first());
    }
}

/// Pushing never turns a halted machine back on.
proof fn lemma_push_seq_keeps_inactive(ram: RamView, vals: Seq<u16>)
    requires
        ram.wf(),
        !ram.active,
        forall|i: int| 0 <= i < vals.len() ==> vals[i] < 0x1000,
    ensures
        !ram.push_seq_result(vals).0.active,
    decreases vals.len(),
{
    if vals.len() > 0 {
        lemma_push_preserves(ram, vals[0]);
        lemma_push_seq_keeps_inactive(ram.push_result(vals[0]).0, vals.drop_first());
    }
}

} // verus!
