//! Execution core of an 8-bit microprocessor emulator modeled on the 6502
//! architecture.
//!
//! The core owns a small register file (accumulator, index register, status
//! flags, program counter) and a flat 64 KiB memory image. A caller constructs
//! a [`Cpu`], optionally pre-loads memory, and hands a code buffer to
//! [`Cpu::load_and_run`], which copies the buffer to the fixed code origin and
//! drives the fetch-decode-execute loop until a halt opcode or an error.
//!
//! The whole execution is captured by the spec-level interpreter [`spec_run`];
//! every public operation is proved equal to its spec-level counterpart.

use vstd::prelude::*;
use vstd::pervasive::VecAdditionalExecFns;

verus! {

/// Number of addressable bytes: the full 16-bit address space.
pub const MEMORY_SIZE: usize = 0x10000;

/// Fixed origin at which `load_and_run` places the caller's code buffer.
pub const CODE_MEMORY_STARTING_ADDRESS: u16 = 0x8000;

/// Status bit recording that the last written register value was zero.
pub const ZERO_FLAG: u8 = 0b0000_0010;

/// Status bit recording that bit 7 of the last written register value was set.
pub const NEGATIVE_FLAG: u8 = 0b1000_0000;

/// Terminal conditions of an emulation run.
#[derive(Debug, Clone, Copy, PartialEq, Eq)]
pub enum EmulationError {
    /// The supplied code buffer exceeds the addressable range.
    ProgramTooLarge,
    /// The decode step met a byte outside the supported opcode set; the byte
    /// is carried for diagnosis.
    UnimplementedOpcode(u8),
    /// A load request would exceed the address space.
    OutOfBounds,
    /// The program counter would have to advance past the end of the address
    /// space to fetch the next opcode or operand.
    AddressOverflow,
}

/// How the operand address of the current instruction is found.
#[derive(Clone, Copy)]
pub enum AddressingMode {
    /// The operand is the literal byte at the program counter, so the operand
    /// address is the counter position itself.
    Immediate,
    /// The two bytes at the program counter form a little-endian address at
    /// which the operand is found.
    Absolute,
}

/// Mathematical image of a [`Cpu`]: the registers as they are, the memory as a
/// sequence of bytes.
#[verifier::ext_equal]
pub ghost struct CpuView {
    pub reg_a: u8,
    pub reg_x: u8,
    pub status: u8,
    pub program_counter: u16,
    pub memory: Seq<u8>,
}

impl CpuView {
    /// The memory image always covers the full 16-bit address space.
    pub open spec fn inv(self) -> bool {
        self.memory.len() == MEMORY_SIZE
    }
}

/// State of a freshly constructed processor: registers zeroed, memory
/// zero-filled.
pub open spec fn spec_new() -> CpuView {
    CpuView {
        reg_a: 0,
        reg_x: 0,
        status: 0,
        program_counter: 0,
        memory: Seq::new(MEMORY_SIZE as nat, |i: int| 0u8),
    }
}

/// Little-endian 16-bit value at `index`: the byte at `index` is the low
/// half, the byte at `index + 1` the high half.
pub open spec fn word_at(memory: Seq<u8>, index: u16) -> u16
    recommends
        memory.len() == MEMORY_SIZE,
        index < 0xFFFF,
{
    (((memory[index as int + 1] as u16) << 8) | (memory[index as int] as u16)) as u16
}

/// `memory` with `data` copied in starting at `origin`; everything outside
/// that range is untouched.
pub open spec fn mem_with(memory: Seq<u8>, origin: int, data: Seq<u8>) -> Seq<u8> {
    Seq::new(
        memory.len(),
        |i: int|
            if origin <= i < origin + data.len() {
                data[i - origin]
            } else {
                memory[i]
            },
    )
}

/// The shared flag-recomputation rule, applied by every instruction that
/// writes a register: given the written byte `result`, the Zero flag is set
/// iff `result == 0`, the Negative flag iff bit 7 of `result` is set, and
/// every other status bit keeps its old value.
pub open spec fn spec_flags(status: u8, result: u8) -> u8 {
    let with_zero = if result == 0 {
        status | ZERO_FLAG
    } else {
        status & !ZERO_FLAG
    };
    if result & NEGATIVE_FLAG != 0 {
        with_zero | NEGATIVE_FLAG
    } else {
        with_zero & !NEGATIVE_FLAG
    }
}

/// Operand address of the current instruction under `mode`, resolved at the
/// program-counter position (which already sits past the opcode byte).
pub open spec fn spec_operand_address(s: CpuView, mode: AddressingMode) -> u16 {
    match mode {
        AddressingMode::Immediate => s.program_counter,
        AddressingMode::Absolute => word_at(s.memory, s.program_counter),
    }
}

/// How many operand bytes an instruction under `mode` consumes: the literal
/// byte itself for `Immediate`, the two address bytes for `Absolute`.
pub open spec fn operand_size(mode: AddressingMode) -> u16 {
    match mode {
        AddressingMode::Immediate => 1,
        AddressingMode::Absolute => 2,
    }
}

/// Effect of the LDA instruction once the opcode byte is consumed: the byte
/// at the resolved operand address lands in the accumulator, the flags are
/// recomputed from it, and the program counter advances past the consumed
/// operand bytes.
pub open spec fn spec_lda(s: CpuView, mode: AddressingMode) -> CpuView {
    let value = s.memory[spec_operand_address(s, mode) as int];
    CpuView {
        reg_a: value,
        status: spec_flags(s.status, value),
        program_counter: (s.program_counter + operand_size(mode)) as u16,
        ..s
    }
}

/// Effect of the TAX instruction: the accumulator is copied into index X and
/// the flags are recomputed from the copied value.
pub open spec fn spec_tax(s: CpuView) -> CpuView {
    CpuView { reg_x: s.reg_a, status: spec_flags(s.status, s.reg_a), ..s }
}

/// Effect of the INX instruction: index X is incremented with 8-bit
/// wraparound and the flags are recomputed from the new value.
pub open spec fn spec_inx(s: CpuView) -> CpuView {
    let value = if s.reg_x == 0xFF {
        0u8
    } else {
        (s.reg_x + 1) as u8
    };
    CpuView { reg_x: value, status: spec_flags(s.status, value), ..s }
}

/// The fetch-decode-execute loop as a mathematical function: from a state
/// whose program counter points at the next opcode, the final state together
/// with the run's outcome.
///
/// Each step fetches the opcode at the program counter and advances the
/// counter past it, and each instruction advances it further past the operand
/// bytes it consumes. A halt opcode (0x00) ends the run; a byte outside the
/// supported set ends it with `UnimplementedOpcode`; a step whose counter
/// could not advance past the fetched opcode or its operand without leaving
/// the address space ends it with `AddressOverflow`, before any register
/// changes. The counter grows every step, so the loop always terminates.
pub open spec fn spec_run(s: CpuView) -> (CpuView, Result<(), EmulationError>)
    recommends
        s.inv(),
    decreases MEMORY_SIZE - s.program_counter,
{
    if s.program_counter == 0xFFFF {
        (s, Err(EmulationError::AddressOverflow))
    } else {
        let opcode = s.memory[s.program_counter as int];
        let fetched = CpuView { program_counter: (s.program_counter + 1) as u16, ..s };
        if opcode == 0x00 {
            (fetched, Ok(()))
        } else if opcode == 0xA9 {
            if fetched.program_counter == 0xFFFF {
                (fetched, Err(EmulationError::AddressOverflow))
            } else {
                spec_run(spec_lda(fetched, AddressingMode::Immediate))
            }
        } else if opcode == 0xAA {
            spec_run(spec_tax(fetched))
        } else if opcode == 0xE8 {
            spec_run(spec_inx(fetched))
        } else {
            (fetched, Err(EmulationError::UnimplementedOpcode(opcode)))
        }
    }
}

/// State from which `load_and_run` starts executing: `code` copied in at the
/// code origin and the program counter placed there.
pub open spec fn spec_loaded(s: CpuView, code: Seq<u8>) -> CpuView {
    CpuView {
        program_counter: CODE_MEMORY_STARTING_ADDRESS,
        memory: mem_with(s.memory, CODE_MEMORY_STARTING_ADDRESS as int, code),
        ..s
    }
}

/// The flag rule, bit by bit: the Zero flag comes out set exactly when the
/// result byte is zero, the Negative flag exactly when its bit 7 is set, and
/// the six reserved status bits pass through unchanged.
pub proof fn lemma_flags_rule(status: u8, result: u8)
    ensures
        spec_flags(status, result) & ZERO_FLAG == (if result == 0 {
            ZERO_FLAG
        } else {
            0u8
        }),
        spec_flags(status, result) & NEGATIVE_FLAG == (if result & NEGATIVE_FLAG != 0 {
            NEGATIVE_FLAG
        } else {
            0u8
        }),
        spec_flags(status, result) & !(ZERO_FLAG | NEGATIVE_FLAG) == status & !(ZERO_FLAG
            | NEGATIVE_FLAG),
{
    assert(spec_flags(status, result) & ZERO_FLAG == (if result == 0 {
        ZERO_FLAG
    } else {
        0u8
    })) by (bit_vector);
    assert(spec_flags(status, result) & NEGATIVE_FLAG == (if result & NEGATIVE_FLAG != 0 {
        NEGATIVE_FLAG
    } else {
        0u8
    })) by (bit_vector);
    assert(spec_flags(status, result) & !(ZERO_FLAG | NEGATIVE_FLAG) == status & !(ZERO_FLAG
        | NEGATIVE_FLAG)) by (bit_vector);
}

/// The processor state machine: register file plus exclusively owned memory.
pub struct Cpu {
    pub reg_a: u8,
    pub reg_x: u8,
    pub status: u8,
    pub program_counter: u16,
    pub memory: Vec<u8>,
}

impl View for Cpu {
    type V = CpuView;

    open spec fn view(&self) -> CpuView {
        CpuView {
            reg_a: self.reg_a,
            reg_x: self.reg_x,
            status: self.status,
            program_counter: self.program_counter,
            memory: self.memory@,
        }
    }
}

impl Cpu {
    /// Well-formedness: the memory vector spans the whole address space.
    pub open spec fn wf(self) -> bool {
        self@.inv()
    }

    /// Returns a processor with all registers zeroed and memory zero-filled.
    pub fn new() -> (cpu: Cpu)
        ensures
            cpu.wf(),
            cpu@ == spec_new(),
            cpu.reg_a == 0,
            cpu.reg_x == 0,
            cpu.status == 0,
            cpu.program_counter == 0,
    {
        let mut memory: Vec<u8> = Vec::new();
        let mut i: usize = 0;
        while i < MEMORY_SIZE
            invariant
                i == memory@.len(),
                i <= MEMORY_SIZE,
                forall|k: int| 0 <= k < i ==> memory@[k] == 0u8,
            decreases MEMORY_SIZE - i,
        {
            memory.push(0u8);
            i = i + 1;
        }
        let cpu = Cpu { reg_a: 0, reg_x: 0, status: 0, program_counter: 0, memory };
        proof {
            assert(cpu@.memory =~= spec_new().memory);
            assert(cpu@ =~= spec_new());
        }
        cpu
    }

    /// Copies `memory` into the address space starting at address 0, leaving
    /// the rest of memory and the registers untouched. Fails with
    /// `OutOfBounds`, before any mutation, when `memory` does not fit.
    pub fn set_memory(&mut self, memory: Vec<u8>) -> (result: Result<(), EmulationError>)
        requires
            old(self).wf(),
        ensures
            final(self).wf(),
            memory@.len() > MEMORY_SIZE ==> result == Err::<(), EmulationError>(EmulationError::OutOfBounds)
                && *final(self) == *old(self),
            memory@.len() <= MEMORY_SIZE ==> result == Ok::<(), EmulationError>(())
                && final(self)@ == (CpuView { memory: mem_with(old(self)@.memory, 0, memory@), ..old(self)@ }),
    {
        if memory.len() > MEMORY_SIZE {
            return Err(EmulationError::OutOfBounds);
        }
        self.load(&memory, 0);
        Ok(())
    }

    /// The sole external entry point: copies `code` to the fixed code origin,
    /// points the program counter there, and executes until the run ends.
    ///
    /// Fails with `ProgramTooLarge` when `code` exceeds the address space and
    /// with `OutOfBounds` when it does not fit above the code origin, in both
    /// cases before any mutation; otherwise the final state and the outcome
    /// are exactly [`spec_run`] of the loaded state.
    pub fn load_and_run(&mut self, code: Vec<u8>) -> (result: Result<(), EmulationError>)
        requires
            old(self).wf(),
        ensures
            final(self).wf(),
            code@.len() > MEMORY_SIZE ==> result == Err::<(), EmulationError>(EmulationError::ProgramTooLarge)
                && *final(self) == *old(self),
            code@.len() <= MEMORY_SIZE && CODE_MEMORY_STARTING_ADDRESS as int + code@.len()
                > MEMORY_SIZE ==> result == Err::<(), EmulationError>(EmulationError::OutOfBounds) && *final(self)
                == *old(self),
            CODE_MEMORY_STARTING_ADDRESS as int + code@.len() <= MEMORY_SIZE ==> spec_run(
                spec_loaded(old(self)@, code@),
            ) == (final(self)@, result),
    {
        if code.len() > MEMORY_SIZE {
            return Err(EmulationError::ProgramTooLarge);
        }
        if code.len() > MEMORY_SIZE - CODE_MEMORY_STARTING_ADDRESS as usize {
            return Err(EmulationError::OutOfBounds);
        }
        self.load(&code, CODE_MEMORY_STARTING_ADDRESS);
        self.program_counter = CODE_MEMORY_STARTING_ADDRESS;
        proof {
            assert(self@ =~= spec_loaded(old(self)@, code@));
        }
        self.run()
    }

    /// Returns the byte at `index`. Every 16-bit address is valid.
    pub fn mem_read(&self, index: u16) -> (value: u8)
        requires
            self.wf(),
        ensures
            value == self@.memory[index as int],
    {
        self.memory[index as usize]
    }

    /// Returns the little-endian word whose low byte sits at `index`. The
    /// high byte is read at `index + 1`, so the word must not start on the
    /// last address of the space.
    pub fn mem_read_u16(&self, index: u16) -> (value: u16)
        requires
            self.wf(),
            index < 0xFFFF,
        ensures
            value == word_at(self@.memory, index),
    {
        let low = self.mem_read(index) as u16;
        let high = self.mem_read(index + 1) as u16;
        (high << 8) | low
    }

    /// Stores `value` at `index`; registers and the rest of memory are
    /// untouched.
    pub fn mem_write(&mut self, index: u16, value: u8)
        requires
            old(self).wf(),
        ensures
            final(self).wf(),
            final(self)@ == (CpuView {
                memory: old(self)@.memory.update(index as int, value),
                ..old(self)@
            }),
    {
        self.memory.set(index as usize, value);
    }

    /// Stores `value` little-endian: the low byte at `index`, the high byte
    /// at `index + 1`.
    pub fn mem_write_u16(&mut self, index: u16, value: u16)
        requires
            old(self).wf(),
            index < 0xFFFF,
        ensures
            final(self).wf(),
            final(self)@ == (CpuView {
                memory: old(self)@.memory
                    .update(index as int, (value & 0xFF) as u8)
                    .update(index as int + 1, (value >> 8) as u8),
                ..old(self)@
            }),
    {
        let value_low = (value & 0xFF) as u8;
        let value_high = (value >> 8) as u8;
        self.mem_write(index, value_low);
        self.mem_write(index + 1, value_high);
    }

    /// Copies `data` into memory starting at `origin`; the caller has checked
    /// that the copy stays inside the address space.
    fn load(&mut self, data: &Vec<u8>, origin: u16)
        requires
            old(self).wf(),
            origin as int + data@.len() <= MEMORY_SIZE,
        ensures
            final(self).wf(),
            final(self)@ == (CpuView {
                memory: mem_with(old(self)@.memory, origin as int, data@),
                ..old(self)@
            }),
    {
        let mut j: usize = 0;
        while j < data.len()
            invariant
                self.wf(),
                j <= data@.len(),
                origin as int + data@.len() <= MEMORY_SIZE,
                self.reg_a == old(self).reg_a,
                self.reg_x == old(self).reg_x,
                self.status == old(self).status,
                self.program_counter == old(self).program_counter,
                forall|i: int|
                    origin as int <= i < origin as int + j ==> self@.memory[i] == data@[i
                        - origin as int],
                forall|i: int|
                    0 <= i < MEMORY_SIZE && !(origin as int <= i < origin as int + j)
                        ==> self@.memory[i] == old(self)@.memory[i],
            decreases data@.len() - j,
        {
            let address = origin + (j as u16);
            self.mem_write(address, data[j]);
            j = j + 1;
        }
        proof {
            assert(self@.memory =~= mem_with(old(self)@.memory, origin as int, data@));
            assert(self@ =~= (CpuView {
                memory: mem_with(old(self)@.memory, origin as int, data@),
                ..old(self)@
            }));
        }
    }

    /// Resolves the operand address for `mode` at the current program-counter
    /// position. `Absolute` reads a word there, so the counter must then not
    /// sit on the last address of the space.
    fn get_operand_address(&self, mode: AddressingMode) -> (address: u16)
        requires
            self.wf(),
            mode is Absolute ==> self.program_counter < 0xFFFF,
        ensures
            address == spec_operand_address(self@, mode),
    {
        match mode {
            AddressingMode::Immediate => self.program_counter,
            AddressingMode::Absolute => self.mem_read_u16(self.program_counter),
        }
    }

    /// Recomputes the Zero and Negative flags from `result` by the shared
    /// rule, leaving every other status bit as it was.
    fn update_zero_and_negative_flags(&mut self, result: u8)
        requires
            old(self).wf(),
        ensures
            final(self).wf(),
            final(self)@ == (CpuView { status: spec_flags(old(self).status, result), ..old(self)@ }),
    {
        let mut status = self.status;
        if result == 0 {
            status = status | ZERO_FLAG;
        } else {
            status = status & !ZERO_FLAG;
        }
        if result & NEGATIVE_FLAG != 0 {
            status = status | NEGATIVE_FLAG;
        } else {
            status = status & !NEGATIVE_FLAG;
        }
        self.status = status;
    }

    /// Loads the accumulator from the operand address resolved under `mode`,
    /// recomputes the flags from the loaded byte, and advances the program
    /// counter past the consumed operand bytes.
    fn lda(&mut self, mode: AddressingMode)
        requires
            old(self).wf(),
            old(self).program_counter + operand_size(mode) <= 0xFFFF,
        ensures
            final(self).wf(),
            final(self)@ == spec_lda(old(self)@, mode),
    {
        let address = self.get_operand_address(mode);
        let value = self.mem_read(address);
        self.reg_a = value;
        self.update_zero_and_negative_flags(value);
        let size: u16 = match mode {
            AddressingMode::Immediate => 1,
            AddressingMode::Absolute => 2,
        };
        self.program_counter = self.program_counter + size;
    }

    /// Repeats fetch, decode and execute from the current program counter
    /// until a halt opcode, an unimplemented opcode, or the end of the
    /// address space; the result is exactly what [`spec_run`] says of the
    /// starting state.
    fn run(&mut self) -> (result: Result<(), EmulationError>)
        requires
            old(self).wf(),
        ensures
            final(self).wf(),
            spec_run(old(self)@) == (final(self)@, result),
    {
        loop
            invariant
                self.wf(),
                spec_run(self@) == spec_run(old(self)@),
            decreases MEMORY_SIZE - self.program_counter as int,
        {
            let ghost s = self@;
            if self.program_counter == 0xFFFF {
                return Err(EmulationError::AddressOverflow);
            }
            let opcode = self.mem_read(self.program_counter);
            self.program_counter = self.program_counter + 1;
            let ghost fetched = self@;
            match opcode {
                0xA9 => {
                    if self.program_counter == 0xFFFF {
                        return Err(EmulationError::AddressOverflow);
                    }
                    self.lda(AddressingMode::Immediate);
                    proof {
                        assert(spec_run(s) == spec_run(self@));
                    }
                },
                0xAA => {
                    let value = self.reg_a;
                    self.reg_x = value;
                    self.update_zero_and_negative_flags(value);
                    proof {
                        assert(self@ =~= spec_tax(fetched));
                        assert(spec_run(s) == spec_run(self@));
                    }
                },
                0xE8 => {
                    let value = if self.reg_x == 0xFF {
                        0u8
                    } else {
                        self.reg_x + 1
                    };
                    self.reg_x = value;
                    self.update_zero_and_negative_flags(value);
                    proof {
                        assert(self@ =~= spec_inx(fetched));
                        assert(spec_run(s) == spec_run(self@));
                    }
                },
                0x00 => {
                    return Ok(());
                },
                _ => {
                    return Err(EmulationError::UnimplementedOpcode(opcode));
                },
            }
        }
    }
}

/// The LDA rule, for every machine state whose counter sits on the operand:
/// under `Immediate` the literal operand byte lands in the accumulator and
/// the counter moves past it; the index register and memory stay; the Zero
/// flag comes out set exactly when that byte is zero and the Negative flag
/// exactly when its bit 7 is set.
pub proof fn lemma_lda_rule(s: CpuView)
    requires
        s.program_counter < 0xFFFF,
    ensures
        ({
            let value = s.memory[s.program_counter as int];
            let t = spec_lda(s, AddressingMode::Immediate);
            &&& t.reg_a == value
            &&& t.reg_x == s.reg_x
            &&& t.program_counter == s.program_counter + 1
            &&& t.memory == s.memory
            &&& t.status & ZERO_FLAG == (if value == 0 {
                ZERO_FLAG
            } else {
                0u8
            })
            &&& t.status & NEGATIVE_FLAG == (if value & NEGATIVE_FLAG != 0 {
                NEGATIVE_FLAG
            } else {
                0u8
            })
            &&& t.status & !(ZERO_FLAG | NEGATIVE_FLAG) == s.status & !(ZERO_FLAG | NEGATIVE_FLAG)
        }),
{
    lemma_flags_rule(s.status, s.memory[s.program_counter as int]);
}

/// The TAX rule, for every machine state: the accumulator is copied into
/// index X and itself stays unchanged, and the flags derive from the copied
/// value exactly as the LDA rule specifies.
pub proof fn lemma_tax_rule(s: CpuView)
    ensures
        spec_tax(s).reg_x == s.reg_a,
        spec_tax(s).reg_a == s.reg_a,
        spec_tax(s).program_counter == s.program_counter,
        spec_tax(s).memory == s.memory,
        spec_tax(s).status & ZERO_FLAG == (if s.reg_a == 0 {
            ZERO_FLAG
        } else {
            0u8
        }),
        spec_tax(s).status & NEGATIVE_FLAG == (if s.reg_a & NEGATIVE_FLAG != 0 {
            NEGATIVE_FLAG
        } else {
            0u8
        }),
        spec_tax(s).status & !(ZERO_FLAG | NEGATIVE_FLAG) == s.status & !(ZERO_FLAG
            | NEGATIVE_FLAG),
{
    lemma_flags_rule(s.status, s.reg_a);
}

/// The INX rule, for every machine state: index X becomes its old value plus
/// one modulo 256; at 0xFF it wraps to zero and the Zero flag is set.
pub proof fn lemma_inx_rule(s: CpuView)
    ensures
        spec_inx(s).reg_x as int == (s.reg_x as int + 1) % 256,
        spec_inx(s).reg_a == s.reg_a,
        spec_inx(s).program_counter == s.program_counter,
        spec_inx(s).memory == s.memory,
        s.reg_x == 0xFF ==> spec_inx(s).reg_x == 0 && spec_inx(s).status & ZERO_FLAG == ZERO_FLAG,
        s.reg_x < 0xFF ==> spec_inx(s).reg_x == s.reg_x + 1,
        spec_inx(s).status == spec_flags(s.status, spec_inx(s).reg_x),
{
    let value = spec_inx(s).reg_x;
    lemma_flags_rule(s.status, value);
    if s.reg_x == 0xFF {
        assert((s.reg_x as int + 1) % 256 == 0);
    } else {
        vstd::arithmetic::div_mod::lemma_small_mod((s.reg_x + 1) as nat, 256);
    }
}

/// A byte outside the supported opcode set stops the run at once: the outcome
/// names the byte, registers and memory are exactly as they were when the
/// byte was fetched, and only the program counter has moved past it.
pub proof fn lemma_unimplemented_opcode(s: CpuView)
    requires
        s.program_counter < 0xFFFF,
        s.memory[s.program_counter as int] != 0x00,
        s.memory[s.program_counter as int] != 0xA9,
        s.memory[s.program_counter as int] != 0xAA,
        s.memory[s.program_counter as int] != 0xE8,
    ensures
        ({
            let opcode = s.memory[s.program_counter as int];
            let t = spec_run(s).0;
            &&& spec_run(s).1 == Err::<(), EmulationError>(
                EmulationError::UnimplementedOpcode(opcode),
            )
            &&& t.reg_a == s.reg_a
            &&& t.reg_x == s.reg_x
            &&& t.status == s.status
            &&& t.memory == s.memory
            &&& t.program_counter == s.program_counter + 1
        }),
{
}

/// Running the one-instruction program `[0xAA]` (TAX) from a fresh machine
/// whose registers were set to arbitrary values: for every accumulator value,
/// the run halts, index X holds that value, the accumulator is unchanged, and
/// the flags derive from it by the shared rule.
pub proof fn lemma_tax_program(reg_a: u8, reg_x: u8, status: u8)
    ensures
        ({
            let start = spec_loaded(
                CpuView { reg_a: reg_a, reg_x: reg_x, status: status, ..spec_new() },
                seq![0xAAu8],
            );
            let end = spec_run(start).0;
            &&& spec_run(start).1 == Ok::<(), EmulationError>(())
            &&& end.reg_x == reg_a
            &&& end.reg_a == reg_a
            &&& end.status == spec_flags(status, reg_a)
            &&& end.program_counter == 0x8002
        }),
{
    let start = spec_loaded(
        CpuView { reg_a: reg_a, reg_x: reg_x, status: status, ..spec_new() },
        seq![0xAAu8],
    );
    assert(start.memory[0x8000] == 0xAA);
    assert(start.memory[0x8001] == 0x00);
    let fetched = CpuView { program_counter: 0x8001u16, ..start };
    let stepped = spec_tax(fetched);
    assert(spec_run(start) == spec_run(stepped));
    assert(spec_run(stepped) == (CpuView { program_counter: 0x8002u16, ..stepped }, Ok::<
        (),
        EmulationError,
    >(())));
}

/// Running the one-instruction program `[0xE8]` (INX) from a fresh machine
/// whose registers were set to arbitrary values: for every index value, the
/// run halts and index X holds its old value plus one modulo 256; from 0xFF
/// it wraps to zero and the Zero flag is set.
pub proof fn lemma_inx_program(reg_a: u8, reg_x: u8, status: u8)
    ensures
        ({
            let start = spec_loaded(
                CpuView { reg_a: reg_a, reg_x: reg_x, status: status, ..spec_new() },
                seq![0xE8u8],
            );
            let end = spec_run(start).0;
            &&& spec_run(start).1 == Ok::<(), EmulationError>(())
            &&& end.reg_x as int == (reg_x as int + 1) % 256
            &&& end.reg_a == reg_a
            &&& reg_x == 0xFF ==> end.reg_x == 0 && end.status & ZERO_FLAG == ZERO_FLAG
            &&& end.program_counter == 0x8002
        }),
{
    let start = spec_loaded(
        CpuView { reg_a: reg_a, reg_x: reg_x, status: status, ..spec_new() },
        seq![0xE8u8],
    );
    assert(start.memory[0x8000] == 0xE8);
    assert(start.memory[0x8001] == 0x00);
    let fetched = CpuView { program_counter: 0x8001u16, ..start };
    let stepped = spec_inx(fetched);
    lemma_inx_rule(fetched);
    assert(spec_run(start) == spec_run(stepped));
    assert(spec_run(stepped) == (CpuView { program_counter: 0x8002u16, ..stepped }, Ok::<
        (),
        EmulationError,
    >(())));
}

/// Running the two-byte program `[0xA9, value]` (LDA with a literal operand)
/// from a fresh machine: for every operand byte, the run halts with the
/// accumulator holding exactly that byte, the Zero flag set exactly when it
/// is zero, the Negative flag exactly when its bit 7 is set, and the counter
/// just past the halt byte.
pub proof fn lemma_lda_program(value: u8)
    ensures
        ({
            let start = spec_loaded(spec_new(), seq![0xA9u8, value]);
            let end = spec_run(start).0;
            &&& spec_run(start).1 == Ok::<(), EmulationError>(())
            &&& end.reg_a == value
            &&& end.status & ZERO_FLAG == (if value == 0 {
                ZERO_FLAG
            } else {
                0u8
            })
            &&& end.status & NEGATIVE_FLAG == (if value & NEGATIVE_FLAG != 0 {
                NEGATIVE_FLAG
            } else {
                0u8
            })
            &&& end.program_counter == 0x8003
        }),
{
    let start = spec_loaded(spec_new(), seq![0xA9u8, value]);
    assert(start.memory[0x8000] == 0xA9);
    assert(start.memory[0x8001] == value);
    assert(start.memory[0x8002] == 0x00);
    let fetched = CpuView { program_counter: 0x8001u16, ..start };
    let stepped = spec_lda(fetched, AddressingMode::Immediate);
    lemma_lda_rule(fetched);
    assert(spec_run(start) == spec_run(stepped));
    assert(spec_run(stepped) == (CpuView { program_counter: 0x8003u16, ..stepped }, Ok::<
        (),
        EmulationError,
    >(())));
}

/// Writing a word and reading it back at the same index yields the word: the
/// two byte stores of `mem_write_u16` are exactly what `mem_read_u16`
/// recomposes.
pub proof fn lemma_word_round_trip(memory: Seq<u8>, index: u16, value: u16)
    requires
        memory.len() == MEMORY_SIZE,
        index < 0xFFFF,
    ensures
        word_at(
            memory.update(index as int, (value & 0xFF) as u8).update(
                index as int + 1,
                (value >> 8) as u8,
            ),
            index,
        ) == value,
{
    let stored = memory.update(index as int, (value & 0xFF) as u8).update(
        index as int + 1,
        (value >> 8) as u8,
    );
    assert(stored[index as int] == (value & 0xFF) as u8);
    assert(stored[index as int + 1] == (value >> 8) as u8);
    assert(((((value >> 8) as u8) as u16) << 8) | (((value & 0xFF) as u8) as u16) == value)
        by (bit_vector);
}

} // verus!
