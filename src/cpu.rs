//! The user-mode processor: architectural state, checked guest-memory access,
//! instruction fetch, and single-step execution.
use vstd::prelude::*;

use crate::RAM_SIZE;

verus! {

/// Byte handed back for a read outside guest memory.
pub const FILLER: u8 = 0xCC;

/// The reason for a trap.
#[derive(Debug, Clone, Copy, PartialEq, Eq, Structural)]
pub enum TrapCause {
    NoTrap,
    InstructionAddressMisaligned,
    InstructionAccessFault,
    IllegalInstruction,
    Breakpoint,
    LoadAddressMisaligned,
    LoadAccessFault,
    StoreAMOAddressMisaligned,
    StoreAMOAccessFault,
    EnvironmentCallFromUmode,
    EnvironmentCallFromSmode,
    EnvironmentCallFromMmode,
    InstructionPageFault,
    LoadPageFault,
    StoreAMOPageFault,
}

/// The virtual CPU running in user mode.
pub struct Cpu {
    /// The instruction word fetched for execution.
    pub instruction: u32,
    /// Address of the instruction to execute next.
    pub pc: u64,
    /// The integer register file; register 0 is forced to zero between instructions.
    pub xr: [u64; 32],
    /// Why the CPU stopped, or `TrapCause::NoTrap`.
    pub scause: TrapCause,
    /// Resume address of a pending trap.
    pub sepc: u64,
    /// Auxiliary trap data: the offending address or instruction word.
    pub stval: u64,
}

/// Mathematical view of the processor state.
pub struct CpuState {
    pub instruction: u32,
    pub pc: u64,
    pub xr: Seq<u64>,
    pub scause: TrapCause,
    pub sepc: u64,
    pub stval: u64,
}

impl View for Cpu {
    type V = CpuState;

    open spec fn view(&self) -> CpuState {
        CpuState {
            instruction: self.instruction,
            pc: self.pc,
            xr: self.xr@,
            scause: self.scause,
            sepc: self.sepc,
            stval: self.stval,
        }
    }
}

// ---------------------------------------------------------------------------
// Guest memory model (little endian; reads outside memory give the filler byte)

pub open spec fn addr_plus(a: u64, k: u64) -> u64 {
    a.wrapping_add(k)
}

/// The byte read at address `a`; any address outside memory, including one past
/// the end of the 64-bit address space, reads as the filler byte.
pub open spec fn byte_at(ram: Seq<u8>, a: int) -> u8 {
    if 0 <= a < ram.len() {
        ram[a]
    } else {
        FILLER
    }
}

pub open spec fn hword_at(ram: Seq<u8>, a: int) -> u16 {
    (byte_at(ram, a) as int + 0x100 * byte_at(ram, a + 1) as int) as u16
}

pub open spec fn word_at(ram: Seq<u8>, a: int) -> u32 {
    (hword_at(ram, a) as int + 0x10000 * hword_at(ram, a + 2) as int) as u32
}

pub open spec fn dword_at(ram: Seq<u8>, a: int) -> u64 {
    (word_at(ram, a) as int + 0x1_0000_0000 * word_at(ram, a + 4) as int) as u64
}

/// Memory after writing one byte; a write outside memory changes nothing.
pub open spec fn put_byte(ram: Seq<u8>, a: u64, b: u8) -> Seq<u8> {
    if (a as int) < ram.len() {
        ram.update(a as int, b)
    } else {
        ram
    }
}

pub open spec fn put_hword(ram: Seq<u8>, a: u64, v: u16) -> Seq<u8> {
    put_byte(put_byte(ram, a, (v % 0x100) as u8), addr_plus(a, 1), (v / 0x100) as u8)
}

pub open spec fn put_word(ram: Seq<u8>, a: u64, v: u32) -> Seq<u8> {
    put_hword(put_hword(ram, a, (v % 0x10000) as u16), addr_plus(a, 2), (v / 0x10000) as u16)
}

pub open spec fn put_dword(ram: Seq<u8>, a: u64, v: u64) -> Seq<u8> {
    put_word(
        put_word(ram, a, (v % 0x1_0000_0000) as u32),
        addr_plus(a, 4),
        (v / 0x1_0000_0000) as u32,
    )
}

// ---------------------------------------------------------------------------
// Trap descriptors

/// The state after recording a trap raised by the instruction at `pc`.
pub open spec fn raise(c: CpuState, cause: TrapCause, tval: u64) -> CpuState {
    CpuState { scause: cause, sepc: c.pc, stval: tval, ..c }
}

/// The cause a load of the given alignment mask raises at `addr`, if any.
pub open spec fn load_fault(addr: u64, mask: u64) -> TrapCause {
    if addr & mask != 0 {
        TrapCause::LoadAddressMisaligned
    } else if addr >= RAM_SIZE {
        TrapCause::LoadAccessFault
    } else {
        TrapCause::NoTrap
    }
}

/// The cause a store of the given alignment mask raises at `addr`, if any.
pub open spec fn store_fault(addr: u64, mask: u64) -> TrapCause {
    if addr & mask != 0 {
        TrapCause::StoreAMOAddressMisaligned
    } else if addr >= RAM_SIZE {
        TrapCause::StoreAMOAccessFault
    } else {
        TrapCause::NoTrap
    }
}

pub open spec fn after_load_check(c: CpuState, addr: u64, mask: u64) -> CpuState {
    if load_fault(addr, mask) == TrapCause::NoTrap {
        c
    } else {
        raise(c, load_fault(addr, mask), addr)
    }
}

pub open spec fn after_store_check(c: CpuState, addr: u64, mask: u64) -> CpuState {
    if store_fault(addr, mask) == TrapCause::NoTrap {
        c
    } else {
        raise(c, store_fault(addr, mask), addr)
    }
}

/// A fault met while fetching is reported as the matching instruction-fetch fault.
pub open spec fn as_fetch_fault(cause: TrapCause) -> TrapCause {
    match cause {
        TrapCause::LoadAddressMisaligned => TrapCause::InstructionAddressMisaligned,
        TrapCause::LoadAccessFault => TrapCause::InstructionAccessFault,
        _ => cause,
    }
}

/// The state after fetching the instruction at `pc`: the word at `pc` is always
/// loaded; a fault of that load is recorded as the matching instruction-fetch fault,
/// unless a trap is already pending, whose descriptor is then kept as it was.
pub open spec fn fetched(c: CpuState, ram: Seq<u8>) -> CpuState {
    if c.scause != TrapCause::NoTrap {
        CpuState { instruction: word_at(ram, c.pc as int), ..c }
    } else {
        let c1 = after_load_check(c, c.pc, 3);
        CpuState { instruction: word_at(ram, c.pc as int), scause: as_fetch_fault(c1.scause), ..c1 }
    }
}

impl Cpu {
    /// Creates a CPU with all registers zero, ready to fetch at `initial_pc`.
    pub fn new(initial_pc: u64) -> (r: Cpu)
        ensures
            r.pc == initial_pc,
            r.instruction == 0,
            r.scause == TrapCause::NoTrap,
            r.sepc == 0,
            r.stval == 0,
            r@.xr == Seq::new(32, |i: int| 0u64),
    {
        let r = Cpu {
            instruction: 0,
            pc: initial_pc,
            xr: [0; 32],
            scause: TrapCause::NoTrap,
            sepc: 0,
            stval: 0,
        };
        assert(r@.xr =~= Seq::new(32, |i: int| 0u64));
        r
    }

    /// Records a load trap if `addr` is misaligned for `align_mask` or beyond guest memory.
    fn check_load(&mut self, addr: u64, align_mask: u64)
        ensures
            final(self)@ == after_load_check(old(self)@, addr, align_mask),
    {
        if (addr & align_mask) != 0 {
            self.scause = TrapCause::LoadAddressMisaligned;
            self.sepc = self.pc;
            self.stval = addr;
            return;
        }
        if addr >= RAM_SIZE {
            self.scause = TrapCause::LoadAccessFault;
            self.sepc = self.pc;
            self.stval = addr;
        }
    }

    /// Records a store trap if `addr` is misaligned for `align_mask` or beyond guest
    /// memory; answers whether the store may proceed.
    fn check_store(&mut self, addr: u64, align_mask: u64) -> (ok: bool)
        ensures
            final(self)@ == after_store_check(old(self)@, addr, align_mask),
            ok == (store_fault(addr, align_mask) == TrapCause::NoTrap),
    {
        if (addr & align_mask) != 0 {
            self.scause = TrapCause::StoreAMOAddressMisaligned;
            self.sepc = self.pc;
            self.stval = addr;
            return false;
        }
        if addr >= RAM_SIZE {
            self.scause = TrapCause::StoreAMOAccessFault;
            self.sepc = self.pc;
            self.stval = addr;
            return false;
        }
        true
    }
}

fn load_byte_unchecked(ram: &Vec<u8>, addr: u64) -> (r: u8)
    ensures
        r == byte_at(ram@, addr as int),
{
    if addr < ram.len() as u64 {
        ram[addr as usize]
    } else {
        FILLER
    }
}

/// The byte at `addr + k`, which is filler when the sum passes the address space.
fn load_byte_at(ram: &Vec<u8>, addr: u64, k: u64) -> (r: u8)
    requires
        k < 8,
    ensures
        r == byte_at(ram@, addr + k),
{
    if addr <= u64::MAX - k {
        load_byte_unchecked(ram, addr + k)
    } else {
        let len = ram.len();
        assert(ram@.len() == len);
        FILLER
    }
}

fn load_hword_at(ram: &Vec<u8>, addr: u64, k: u64) -> (r: u16)
    requires
        k <= 6,
    ensures
        r == hword_at(ram@, addr + k),
{
    let b0 = load_byte_at(ram, addr, k);
    let b1 = load_byte_at(ram, addr, k + 1);
    assert(((b1 as u16) << 8) | (b0 as u16) == b0 + 0x100 * b1) by (bit_vector);
    ((b1 as u16) << 8) | (b0 as u16)
}

fn load_word_at(ram: &Vec<u8>, addr: u64, k: u64) -> (r: u32)
    requires
        k <= 4,
    ensures
        r == word_at(ram@, addr + k),
{
    let h0 = load_hword_at(ram, addr, k);
    let h1 = load_hword_at(ram, addr, k + 2);
    assert(((h1 as u32) << 16) | (h0 as u32) == h0 + 0x10000 * h1) by (bit_vector);
    ((h1 as u32) << 16) | (h0 as u32)
}

fn load_dword_unchecked(ram: &Vec<u8>, addr: u64) -> (r: u64)
    ensures
        r == dword_at(ram@, addr as int),
{
    let w0 = load_word_at(ram, addr, 0);
    let w1 = load_word_at(ram, addr, 4);
    assert(((w1 as u64) << 32) | (w0 as u64) == w0 + 0x1_0000_0000 * w1) by (bit_vector);
    ((w1 as u64) << 32) | (w0 as u64)
}

fn store_byte_unchecked(ram: &mut Vec<u8>, addr: u64, val: u8)
    ensures
        final(ram)@ == put_byte(old(ram)@, addr, val),
{
    if addr < ram.len() as u64 {
        ram.set(addr as usize, val);
    }
}

fn store_hword_unchecked(ram: &mut Vec<u8>, addr: u64, val: u16)
    ensures
        final(ram)@ == put_hword(old(ram)@, addr, val),
{
    assert((val & 0xFF) as u8 == (val % 0x100) as u8 && ((val >> 8) & 0xFF) as u8 == (val
        / 0x100) as u8) by (bit_vector);
    store_byte_unchecked(ram, addr, (val & 0xFF) as u8);
    store_byte_unchecked(ram, addr.wrapping_add(1), ((val >> 8) & 0xFF) as u8);
}

fn store_word_unchecked(ram: &mut Vec<u8>, addr: u64, val: u32)
    ensures
        final(ram)@ == put_word(old(ram)@, addr, val),
{
    assert((val & 0xFFFF) as u16 == (val % 0x10000) as u16 && ((val >> 16) & 0xFFFF) as u16 == (
    val / 0x10000) as u16) by (bit_vector);
    store_hword_unchecked(ram, addr, (val & 0xFFFF) as u16);
    store_hword_unchecked(ram, addr.wrapping_add(2), ((val >> 16) & 0xFFFF) as u16);
}

fn store_dword_unchecked(ram: &mut Vec<u8>, addr: u64, val: u64)
    ensures
        final(ram)@ == put_dword(old(ram)@, addr, val),
{
    assert((val & 0xFFFF_FFFF) as u32 == (val % 0x1_0000_0000) as u32 && ((val >> 32)
        & 0xFFFF_FFFF) as u32 == (val / 0x1_0000_0000) as u32) by (bit_vector);
    store_word_unchecked(ram, addr, (val & 0xFFFF_FFFF) as u32);
    store_word_unchecked(ram, addr.wrapping_add(4), ((val >> 32) & 0xFFFF_FFFF) as u32);
}

impl Cpu {
    fn load_byte(&mut self, ram: &Vec<u8>, addr: u64) -> (r: u8)
        ensures
            r == byte_at(ram@, addr as int),
            final(self)@ == after_load_check(old(self)@, addr, 0),
    {
        self.check_load(addr, 0);
        load_byte_unchecked(ram, addr)
    }

    fn load_hword(&mut self, ram: &Vec<u8>, addr: u64) -> (r: u16)
        ensures
            r == hword_at(ram@, addr as int),
            final(self)@ == after_load_check(old(self)@, addr, 1),
    {
        self.check_load(addr, 1);
        load_hword_at(ram, addr, 0)
    }

    fn load_word(&mut self, ram: &Vec<u8>, addr: u64) -> (r: u32)
        ensures
            r == word_at(ram@, addr as int),
            final(self)@ == after_load_check(old(self)@, addr, 3),
    {
        self.check_load(addr, 3);
        load_word_at(ram, addr, 0)
    }

    /// Checked double-word load; the value is produced even when the check traps.
    pub fn load_dword(&mut self, ram: &Vec<u8>, addr: u64) -> (r: u64)
        ensures
            r == dword_at(ram@, addr as int),
            final(self)@ == after_load_check(old(self)@, addr, 7),
    {
        self.check_load(addr, 7);
        load_dword_unchecked(ram, addr)
    }

    fn store_byte(&mut self, ram: &mut Vec<u8>, addr: u64, val: u8)
        ensures
            final(self)@ == after_store_check(old(self)@, addr, 0),
            final(ram)@ == if store_fault(addr, 0) == TrapCause::NoTrap {
                put_byte(old(ram)@, addr, val)
            } else {
                old(ram)@
            },
    {
        if self.check_store(addr, 0) {
            store_byte_unchecked(ram, addr, val);
        }
    }

    fn store_hword(&mut self, ram: &mut Vec<u8>, addr: u64, val: u16)
        ensures
            final(self)@ == after_store_check(old(self)@, addr, 1),
            final(ram)@ == if store_fault(addr, 1) == TrapCause::NoTrap {
                put_hword(old(ram)@, addr, val)
            } else {
                old(ram)@
            },
    {
        if self.check_store(addr, 1) {
            store_hword_unchecked(ram, addr, val);
        }
    }

    fn store_word(&mut self, ram: &mut Vec<u8>, addr: u64, val: u32)
        ensures
            final(self)@ == after_store_check(old(self)@, addr, 3),
            final(ram)@ == if store_fault(addr, 3) == TrapCause::NoTrap {
                put_word(old(ram)@, addr, val)
            } else {
                old(ram)@
            },
    {
        if self.check_store(addr, 3) {
            store_word_unchecked(ram, addr, val);
        }
    }

    /// Checked double-word store; nothing is written when the check traps.
    pub fn store_dword(&mut self, ram: &mut Vec<u8>, addr: u64, val: u64)
        ensures
            final(self)@ == after_store_check(old(self)@, addr, 7),
            final(ram)@ == if store_fault(addr, 7) == TrapCause::NoTrap {
                put_dword(old(ram)@, addr, val)
            } else {
                old(ram)@
            },
    {
        if self.check_store(addr, 7) {
            store_dword_unchecked(ram, addr, val);
        }
    }

    /// Fetches the instruction at `pc` without executing it; a fault becomes the
    /// matching instruction-fetch fault. The descriptor of a trap already pending
    /// is kept, so that its resume address still names the faulting instruction.
    fn fetch(&mut self, ram: &Vec<u8>)
        ensures
            final(self)@ == fetched(old(self)@, ram@),
    {
        if self.scause != TrapCause::NoTrap {
            self.instruction = load_word_at(ram, self.pc, 0);
            return;
        }
        self.instruction = self.load_word(ram, self.pc);
        self.scause = match self.scause {
            TrapCause::LoadAddressMisaligned => TrapCause::InstructionAddressMisaligned,
            TrapCause::LoadAccessFault => TrapCause::InstructionAccessFault,
            _ => self.scause,
        };
    }
}

// ---------------------------------------------------------------------------
// Decoding

/// `input` with bit `from_bit` copied into every higher bit.
pub open spec fn sext(input: u64, from_bit: u64) -> u64 {
    if (input >> from_bit) & 1 != 0 {
        input | (!0u64 << from_bit)
    } else {
        input
    }
}

pub open spec fn opcode(i: u32) -> u32 {
    i & 0x7F
}

pub open spec fn rd_of(i: u32) -> int {
    ((i >> 7) & 0x1F) as int
}

pub open spec fn rs1_of(i: u32) -> int {
    ((i >> 15) & 0x1F) as int
}

pub open spec fn rs2_of(i: u32) -> int {
    ((i >> 20) & 0x1F) as int
}

pub open spec fn funct3(i: u32) -> u32 {
    (i >> 12) & 0x07
}

pub open spec fn shamt(i: u32) -> u64 {
    ((i >> 20) & 0x3F) as u64
}

/// Bit 30, which selects subtract and arithmetic shift.
pub open spec fn alt_bit(i: u32) -> bool {
    (i >> 30) & 1 != 0
}

/// 12-bit immediate of arithmetic, load and jump-register instructions.
pub open spec fn imm_i(i: u32) -> u64 {
    sext(((i >> 20) & 0xFFF) as u64, 11)
}

/// Upper immediate: bits 31..12 in place, low 12 bits zero.
pub open spec fn imm_u(i: u32) -> u64 {
    sext((i & 0xFFFFF000) as u64, 31)
}

/// 21-bit jump displacement.
pub open spec fn imm_j(i: u32) -> u64 {
    sext(
        ((((i >> 31) & 1) << 20) | (((i >> 21) & 0x3FF) << 1) | (((i >> 20) & 1) << 11) | (((i
            >> 12) & 0xFF) << 12)) as u64,
        20,
    )
}

/// 13-bit branch displacement.
pub open spec fn imm_b(i: u32) -> u64 {
    sext(
        ((((i >> 31) & 1) << 12) | (((i >> 25) & 0x3F) << 5) | (((i >> 8) & 0xF) << 1) | (((i
            >> 7) & 1) << 11)) as u64,
        12,
    )
}

/// 12-bit store displacement.
pub open spec fn imm_s(i: u32) -> u64 {
    sext(((((i >> 25) & 0x7F) << 5) | ((i >> 7) & 0x1F)) as u64, 11)
}

// ---------------------------------------------------------------------------
// Instruction semantics

pub open spec fn set_x(c: CpuState, r: int, v: u64) -> CpuState {
    CpuState { xr: c.xr.update(r, v), ..c }
}

/// Retires an instruction: register 0 is forced to zero and `pc` moves to `npc`.
pub open spec fn commit(c: CpuState, npc: u64) -> CpuState {
    CpuState { xr: c.xr.update(0, 0), pc: npc, ..c }
}

pub open spec fn branch_taken(f3: u32, a: u64, b: u64) -> bool {
    match f3 {
        0 => a == b,
        1 => a != b,
        4 => (a as i64) < (b as i64),
        5 => (a as i64) >= (b as i64),
        6 => a < b,
        _ => a >= b,
    }
}

/// Result of an immediate ALU instruction on operand `a`.
pub open spec fn op_imm(f3: u32, a: u64, imm: u64, sh: u64, alt: bool) -> u64 {
    match f3 {
        0 => a.wrapping_add(imm),
        1 => a << sh,
        2 => if (a as i64) < (imm as i64) { 1 } else { 0 },
        3 => if a < imm { 1 } else { 0 },
        4 => a ^ imm,
        5 => if alt { ((a as i64) >> sh) as u64 } else { a >> sh },
        6 => a | imm,
        _ => a & imm,
    }
}

/// Result of a register-register ALU instruction; shift amounts use the low six bits.
pub open spec fn op_reg(f3: u32, a: u64, b: u64, alt: bool) -> u64 {
    match f3 {
        0 => if alt { a.wrapping_sub(b) } else { a.wrapping_add(b) },
        1 => a << (b & 63),
        2 => if (a as i64) < (b as i64) { 1 } else { 0 },
        3 => if a < b { 1 } else { 0 },
        4 => a ^ b,
        5 => if alt { ((a as i64) >> (b & 63)) as u64 } else { a >> (b & 63) },
        6 => a | b,
        _ => a & b,
    }
}

/// State and loaded value of a load of kind `f3` from `ea`.
pub open spec fn load_result(c: CpuState, ram: Seq<u8>, f3: u32, ea: u64) -> (CpuState, u64) {
    match f3 {
        0 => (after_load_check(c, ea, 0), sext(byte_at(ram, ea as int) as u64, 7)),
        1 => (after_load_check(c, ea, 1), sext(hword_at(ram, ea as int) as u64, 15)),
        2 => (after_load_check(c, ea, 3), sext(word_at(ram, ea as int) as u64, 31)),
        3 => (after_load_check(c, ea, 7), dword_at(ram, ea as int)),
        4 => (after_load_check(c, ea, 0), byte_at(ram, ea as int) as u64),
        5 => (after_load_check(c, ea, 1), hword_at(ram, ea as int) as u64),
        6 => (after_load_check(c, ea, 3), word_at(ram, ea as int) as u64),
        _ => (after_load_check(c, ea, 7), dword_at(ram, ea as int)),
    }
}

/// State and memory after a store of width `f3` (0 to 3) of `v` at `ea`.
pub open spec fn store_result(c: CpuState, ram: Seq<u8>, f3: u32, ea: u64, v: u64) -> (
    CpuState,
    Seq<u8>,
) {
    let mask: u64 = if f3 == 0 { 0 } else if f3 == 1 { 1 } else if f3 == 2 { 3 } else { 7 };
    let ram2 = if f3 == 0 {
        put_byte(ram, ea, v as u8)
    } else if f3 == 1 {
        put_hword(ram, ea, v as u16)
    } else if f3 == 2 {
        put_word(ram, ea, v as u32)
    } else {
        put_dword(ram, ea, v)
    };
    (
        after_store_check(c, ea, mask),
        if store_fault(ea, mask) == TrapCause::NoTrap { ram2 } else { ram },
    )
}

/// The cause raised by a system instruction with immediate `imm`.
pub open spec fn system_cause(imm: u64) -> TrapCause {
    if imm == 0 {
        TrapCause::EnvironmentCallFromUmode
    } else if imm == 1 {
        TrapCause::Breakpoint
    } else {
        TrapCause::IllegalInstruction
    }
}

/// A decode-time trap: nothing else changes and `pc` stays on the instruction.
pub open spec fn aborted(c: CpuState, cause: TrapCause) -> CpuState {
    commit(raise(c, cause, c.instruction as u64), c.pc)
}

/// Executes the fetched instruction (without fetching the next one).
pub open spec fn retire(c: CpuState, ram: Seq<u8>) -> (CpuState, Seq<u8>) {
    let i = c.instruction;
    let next = c.pc.wrapping_add(4);
    let f3 = funct3(i);
    let rd = rd_of(i);
    if opcode(i) == 0x37 {
        (commit(set_x(c, rd, imm_u(i)), next), ram)
    } else if opcode(i) == 0x17 {
        (commit(set_x(c, rd, c.pc.wrapping_add(imm_u(i))), next), ram)
    } else if opcode(i) == 0x6F {
        (commit(set_x(c, rd, next), c.pc.wrapping_add(imm_j(i))), ram)
    } else if opcode(i) == 0x67 {
        let c1 = set_x(c, rd, next);
        (commit(c1, c1.xr[rs1_of(i)].wrapping_add(imm_i(i))), ram)
    } else if opcode(i) == 0x63 {
        if f3 == 2 || f3 == 3 {
            (aborted(c, TrapCause::IllegalInstruction), ram)
        } else if branch_taken(f3, c.xr[rs1_of(i)], c.xr[rs2_of(i)]) {
            (commit(c, c.pc.wrapping_add(imm_b(i))), ram)
        } else {
            (commit(c, next), ram)
        }
    } else if opcode(i) == 0x03 {
        let (c1, v) = load_result(c, ram, f3, c.xr[rs1_of(i)].wrapping_add(imm_i(i)));
        (commit(set_x(c1, rd, v), next), ram)
    } else if opcode(i) == 0x23 {
        if f3 >= 4 {
            (aborted(c, TrapCause::IllegalInstruction), ram)
        } else {
            let (c1, ram1) = store_result(
                c,
                ram,
                f3,
                c.xr[rs1_of(i)].wrapping_add(imm_s(i)),
                c.xr[rs2_of(i)],
            );
            (commit(c1, next), ram1)
        }
    } else if opcode(i) == 0x13 {
        (commit(set_x(c, rd, op_imm(f3, c.xr[rs1_of(i)], imm_i(i), shamt(i), alt_bit(i))), next), ram)
    } else if opcode(i) == 0x33 {
        (commit(set_x(c, rd, op_reg(f3, c.xr[rs1_of(i)], c.xr[rs2_of(i)], alt_bit(i))), next), ram)
    } else if opcode(i) == 0x0F {
        (commit(c, next), ram)
    } else if opcode(i) == 0x73 {
        (aborted(c, system_cause(imm_i(i))), ram)
    } else {
        (aborted(c, TrapCause::IllegalInstruction), ram)
    }
}

/// One step: execute the fetched instruction, then fetch the next one.
pub open spec fn step_result(c: CpuState, ram: Seq<u8>) -> (CpuState, Seq<u8>) {
    (fetched(retire(c, ram).0, retire(c, ram).1), retire(c, ram).1)
}

/// Sign-extends `input` from bit `from_bit`.
fn sign_extend(input: u64, from_bit: u64) -> (r: u64)
    requires
        from_bit < 64,
    ensures
        r == sext(input, from_bit),
{
    let bit = (input >> from_bit) & 1;
    let mask = !0u64 << from_bit;
    if bit != 0 {
        input | mask
    } else {
        input
    }
}

fn alu_imm(f3: u32, a: u64, imm: u64, sh: u64, alt: bool) -> (r: u64)
    requires
        sh < 64,
    ensures
        r == op_imm(f3, a, imm, sh, alt),
{
    match f3 {
        0 => a.wrapping_add(imm),
        1 => a << sh,
        2 => if (a as i64) < (imm as i64) { 1 } else { 0 },
        3 => if a < imm { 1 } else { 0 },
        4 => a ^ imm,
        5 => if alt { ((a as i64) >> sh) as u64 } else { a >> sh },
        6 => a | imm,
        _ => a & imm,
    }
}

fn alu_reg(f3: u32, a: u64, b: u64, alt: bool) -> (r: u64)
    ensures
        r == op_reg(f3, a, b, alt),
{
    let sh = b & 63;
    assert(b & 63 < 64) by (bit_vector);
    match f3 {
        0 => if alt { a.wrapping_sub(b) } else { a.wrapping_add(b) },
        1 => a << sh,
        2 => if (a as i64) < (b as i64) { 1 } else { 0 },
        3 => if a < b { 1 } else { 0 },
        4 => a ^ b,
        5 => if alt { ((a as i64) >> sh) as u64 } else { a >> sh },
        6 => a | b,
        _ => a & b,
    }
}

impl Cpu {
    /// Records a decode-time trap on the current instruction.
    fn trap_here(&mut self, cause: TrapCause)
        ensures
            final(self)@ == raise(old(self)@, cause, old(self).instruction as u64),
    {
        self.scause = cause;
        self.sepc = self.pc;
        self.stval = self.instruction as u64;
    }

    fn exec_load(&mut self, ram: &Vec<u8>, f3: u32, ea: u64) -> (v: u64)
        ensures
            (final(self)@, v) == load_result(old(self)@, ram@, f3, ea),
    {
        match f3 {
            0 => sign_extend(self.load_byte(ram, ea) as u64, 7),
            1 => sign_extend(self.load_hword(ram, ea) as u64, 15),
            2 => sign_extend(self.load_word(ram, ea) as u64, 31),
            3 => self.load_dword(ram, ea),
            4 => self.load_byte(ram, ea) as u64,
            5 => self.load_hword(ram, ea) as u64,
            6 => self.load_word(ram, ea) as u64,
            _ => self.load_dword(ram, ea),
        }
    }

    fn exec_store(&mut self, ram: &mut Vec<u8>, f3: u32, ea: u64, v: u64)
        requires
            f3 < 4,
        ensures
            (final(self)@, final(ram)@) == store_result(old(self)@, old(ram)@, f3, ea, v),
    {
        if f3 == 0 {
            self.store_byte(ram, ea, v as u8);
        } else if f3 == 1 {
            self.store_hword(ram, ea, v as u16);
        } else if f3 == 2 {
            self.store_word(ram, ea, v as u32);
        } else {
            self.store_dword(ram, ea, v);
        }
    }

    /// Executes the fetched instruction, forces register 0 to zero, moves `pc` on and
    /// fetches (without executing) the next instruction.
    pub fn step(&mut self, ram: &mut Vec<u8>)
        requires
            old(self).scause == TrapCause::NoTrap,
        ensures
            (final(self)@, final(ram)@) == step_result(old(self)@, old(ram)@),
            final(self).xr[0] == 0,
            final(ram)@.len() == old(ram)@.len(),
    {
        let insn = self.instruction;
        let op = insn & 0x7F;
        let rd = ((insn >> 7) & 0x1F) as usize;
        let f3 = (insn >> 12) & 0x07;
        let rs1 = ((insn >> 15) & 0x1F) as usize;
        let rs2 = ((insn >> 20) & 0x1F) as usize;
        let sh = ((insn >> 20) & 0x3F) as u64;
        let alt = ((insn >> 30) & 1) != 0;
        assert(((insn >> 7) & 0x1F) < 32 && ((insn >> 15) & 0x1F) < 32 && ((insn >> 20) & 0x1F)
            < 32 && ((insn >> 20) & 0x3F) < 64 && (insn >> 12) & 0x07 < 8) by (bit_vector);
        let iimm = sign_extend(((insn >> 20) & 0xFFF) as u64, 11);
        let uimm = sign_extend((insn & 0xFFFFF000) as u64, 31);
        let jdisp = sign_extend(
            ((((insn >> 31) & 1) << 20) | (((insn >> 21) & 0x3FF) << 1) | (((insn >> 20) & 1)
                << 11) | (((insn >> 12) & 0xFF) << 12)) as u64,
            20,
        );
        let bdisp = sign_extend(
            ((((insn >> 31) & 1) << 12) | (((insn >> 25) & 0x3F) << 5) | (((insn >> 8) & 0xF)
                << 1) | (((insn >> 7) & 1) << 11)) as u64,
            12,
        );
        let simm = sign_extend(
            ((((insn >> 25) & 0x7F) << 5) | ((insn >> 7) & 0x1F)) as u64,
            11,
        );
        let next = self.pc.wrapping_add(4);
        let ghost c0 = self@;
        let ghost r0 = ram@;
        let npc: u64;
        if op == 0x37 {
            self.xr[rd] = uimm;
            npc = next;
        } else if op == 0x17 {
            self.xr[rd] = self.pc.wrapping_add(uimm);
            npc = next;
        } else if op == 0x6F {
            self.xr[rd] = next;
            npc = self.pc.wrapping_add(jdisp);
        } else if op == 0x67 {
            self.xr[rd] = next;
            npc = self.xr[rs1].wrapping_add(iimm);
        } else if op == 0x63 {
            if f3 == 2 || f3 == 3 {
                self.trap_here(TrapCause::IllegalInstruction);
                npc = self.pc;
            } else {
                let a = self.xr[rs1];
                let b = self.xr[rs2];
                let taken = match f3 {
                    0 => a == b,
                    1 => a != b,
                    4 => (a as i64) < (b as i64),
                    5 => (a as i64) >= (b as i64),
                    6 => a < b,
                    _ => a >= b,
                };
                npc = if taken { self.pc.wrapping_add(bdisp) } else { next };
            }
        } else if op == 0x03 {
            let ea = self.xr[rs1].wrapping_add(iimm);
            let v = self.exec_load(ram, f3, ea);
            self.xr[rd] = v;
            npc = next;
        } else if op == 0x23 {
            if f3 >= 4 {
                self.trap_here(TrapCause::IllegalInstruction);
                npc = self.pc;
            } else {
                let ea = self.xr[rs1].wrapping_add(simm);
                let v = self.xr[rs2];
                self.exec_store(ram, f3, ea, v);
                npc = next;
            }
        } else if op == 0x13 {
            let v = alu_imm(f3, self.xr[rs1], iimm, sh, alt);
            self.xr[rd] = v;
            npc = next;
        } else if op == 0x33 {
            let v = alu_reg(f3, self.xr[rs1], self.xr[rs2], alt);
            self.xr[rd] = v;
            npc = next;
        } else if op == 0x0F {
            npc = next;
        } else if op == 0x73 {
            let cause = if iimm == 0 {
                TrapCause::EnvironmentCallFromUmode
            } else if iimm == 1 {
                TrapCause::Breakpoint
            } else {
                TrapCause::IllegalInstruction
            };
            self.trap_here(cause);
            npc = self.pc;
        } else {
            self.trap_here(TrapCause::IllegalInstruction);
            npc = self.pc;
        }
        self.xr[0] = 0;
        self.pc = npc;
        assert(self@ == retire(c0, r0).0 && ram@ == retire(c0, r0).1) by {
            assert(self@.xr =~= retire(c0, r0).0.xr);
        }
        self.fetch(ram);
    }
}

/// The machine after at most `n` further steps, stopping at the first trap.
pub open spec fn run(c: CpuState, ram: Seq<u8>, n: nat) -> (CpuState, Seq<u8>)
    decreases n,
{
    if n == 0 || c.scause != TrapCause::NoTrap {
        (c, ram)
    } else {
        run(step_result(c, ram).0, step_result(c, ram).1, (n - 1) as nat)
    }
}

impl Cpu {
    /// Fetches at `pc`, then steps until the CPU traps or `max_steps` instructions
    /// have run. The host dismisses a trap by clearing `scause` and resuming at
    /// `sepc` (advanced past the instruction where appropriate).
    pub fn run_until_trap(&mut self, ram: &mut Vec<u8>, max_steps: u64)
        ensures
            (final(self)@, final(ram)@) == run(
                fetched(old(self)@, old(ram)@),
                old(ram)@,
                max_steps as nat,
            ),
            final(ram)@.len() == old(ram)@.len(),
            old(self).xr[0] == 0 ==> final(self).xr[0] == 0,
    {
        self.fetch(ram);
        proof {
            if old(self).xr[0] == 0 {
                lemma_zero_register(self@, ram@, max_steps as nat);
            }
        }
        let ghost start = (self@, ram@);
        let mut left: u64 = max_steps;
        while left > 0 && self.scause == TrapCause::NoTrap
            invariant
                run(start.0, start.1, max_steps as nat) == run(self@, ram@, left as nat),
                ram@.len() == start.1.len(),
            decreases left,
        {
            self.step(ram);
            left = left - 1;
        }
    }
}

/// Alignment mask of a load or store of kind `f3`.
pub open spec fn access_mask(f3: u32) -> u64 {
    if f3 % 4 == 0 {
        0
    } else if f3 % 4 == 1 {
        1
    } else if f3 % 4 == 2 {
        3
    } else {
        7
    }
}

/// Every immediate field is sign-extended from its own width: a field whose top
/// bit is set stands for its value minus 2 to the power of its width, in 64-bit
/// two's complement; any other field keeps its value.
pub proof fn lemma_sign_extension(v: u64)
    ensures
        v < 0x1000 ==> sext(v, 11) == if v >= 0x800 { (v - 0x1000) as u64 } else { v },
        v < 0x2000 ==> sext(v, 12) == if v >= 0x1000 { (v - 0x2000) as u64 } else { v },
        v < 0x20_0000 ==> sext(v, 20) == if v >= 0x10_0000 { (v - 0x20_0000) as u64 } else { v },
        v < 0x1_0000_0000 ==> sext(v, 31) == if v >= 0x8000_0000 {
            (v - 0x1_0000_0000) as u64
        } else {
            v
        },
{
    assert(v < 0x1000 ==> sext(v, 11) == if v >= 0x800 { (v - 0x1000) as u64 } else { v })
        by (bit_vector);
    assert(v < 0x2000 ==> sext(v, 12) == if v >= 0x1000 { (v - 0x2000) as u64 } else { v })
        by (bit_vector);
    assert(v < 0x20_0000 ==> sext(v, 20) == if v >= 0x10_0000 {
        (v - 0x20_0000) as u64
    } else {
        v
    }) by (bit_vector);
    assert(v < 0x1_0000_0000 ==> sext(v, 31) == if v >= 0x8000_0000 {
        (v - 0x1_0000_0000) as u64
    } else {
        v
    }) by (bit_vector);
}

/// Sign extension from any width `from_bit + 1` below 64: a field whose top bit is
/// set becomes a negative 64-bit value which, plus 2 to the power of the width, is
/// the field's value again (modulo 2^64); a field whose top bit is clear keeps its
/// value.
pub proof fn lemma_sign_extension_any_width(input: u64, from_bit: u64)
    requires
        from_bit < 63,
        input >> (from_bit + 1) == 0,
    ensures
        (input >> from_bit) & 1 == 1 ==> ((sext(input, from_bit) + (1u64 << (from_bit + 1))) as u64
            == input && sext(input, from_bit) >> 63 == 1),
        (input >> from_bit) & 1 == 0 ==> sext(input, from_bit) == input,
{
    assert((input >> from_bit) & 1 == 1 && input >> (from_bit + 1) == 0 && from_bit < 63 ==> ((
    sext(input, from_bit) + (1u64 << (from_bit + 1))) as u64 == input && sext(input, from_bit)
        >> 63 == 1)) by (bit_vector);
}

/// Every immediate that `step` decodes from instruction word `i` is its field taken
/// as a signed number of the field's width: when the field's top bit is set, the
/// field's value minus 2 to the power of its width (in 64-bit two's complement).
pub proof fn lemma_immediate_fields(i: u32)
    ensures
        ({
            let f = ((i >> 20) & 0xFFF) as u64;
            imm_i(i) == if f >= 0x800 { (f - 0x1000) as u64 } else { f }
        }),
        ({
            let f = ((((i >> 25) & 0x7F) << 5) | ((i >> 7) & 0x1F)) as u64;
            imm_s(i) == if f >= 0x800 { (f - 0x1000) as u64 } else { f }
        }),
        ({
            let f = ((((i >> 31) & 1) << 12) | (((i >> 25) & 0x3F) << 5) | (((i >> 8) & 0xF) << 1) | (((
            i >> 7) & 1) << 11)) as u64;
            imm_b(i) == if f >= 0x1000 { (f - 0x2000) as u64 } else { f }
        }),
        ({
            let f = ((((i >> 31) & 1) << 20) | (((i >> 21) & 0x3FF) << 1) | (((i >> 20) & 1) << 11) | (((
            i >> 12) & 0xFF) << 12)) as u64;
            imm_j(i) == if f >= 0x10_0000 { (f - 0x20_0000) as u64 } else { f }
        }),
        ({
            let f = (i & 0xFFFFF000) as u64;
            imm_u(i) == if f >= 0x8000_0000 { (f - 0x1_0000_0000) as u64 } else { f }
        }),
{
    let fi = ((i >> 20) & 0xFFF) as u64;
    let fs = ((((i >> 25) & 0x7F) << 5) | ((i >> 7) & 0x1F)) as u64;
    let fb = ((((i >> 31) & 1) << 12) | (((i >> 25) & 0x3F) << 5) | (((i >> 8) & 0xF) << 1) | (((i >> 7)
        & 1) << 11)) as u64;
    let fj = ((((i >> 31) & 1) << 20) | (((i >> 21) & 0x3FF) << 1) | (((i >> 20) & 1) << 11) | (((i >> 12)
        & 0xFF) << 12)) as u64;
    let fu = (i & 0xFFFFF000) as u64;
    assert(((i >> 20) & 0xFFF) < 0x1000) by (bit_vector);
    assert(((((i >> 25) & 0x7F) << 5) | ((i >> 7) & 0x1F)) < 0x1000) by (bit_vector);
    assert(((((i >> 31) & 1) << 12) | (((i >> 25) & 0x3F) << 5) | (((i >> 8) & 0xF) << 1) | (((i >> 7)
        & 1) << 11)) < 0x2000) by (bit_vector);
    assert(((((i >> 31) & 1) << 20) | (((i >> 21) & 0x3FF) << 1) | (((i >> 20) & 1) << 11) | (((i >> 12)
        & 0xFF) << 12)) < 0x20_0000) by (bit_vector);
    lemma_sign_extension(fi);
    lemma_sign_extension(fs);
    lemma_sign_extension(fb);
    lemma_sign_extension(fj);
    lemma_sign_extension(fu);
}

/// Load-upper-immediate into register `rd` (not register 0) leaves in `rd` exactly
/// the instruction's upper 20 bits, sign-extended, with the low 12 bits zero.
pub proof fn lemma_lui_round_trip(c: CpuState, ram: Seq<u8>)
    requires
        c.xr.len() == 32,
        opcode(c.instruction) == 0x37,
        rd_of(c.instruction) != 0,
    ensures
        step_result(c, ram).0.xr[rd_of(c.instruction)] == imm_u(c.instruction),
        imm_u(c.instruction) & 0xFFF == 0,
        imm_u(c.instruction) as u32 == c.instruction & 0xFFFFF000,
{
    let i = c.instruction;
    assert(sext((i & 0xFFFFF000) as u64, 31) & 0xFFF == 0) by (bit_vector);
    assert(sext((i & 0xFFFFF000) as u64, 31) as u32 == i & 0xFFFFF000) by (bit_vector);
    assert(rd_of(i) < 32) by {
        assert((i >> 7) & 0x1F < 32) by (bit_vector);
    }
}

/// A load whose address is misaligned for its width traps as a misaligned load at
/// the load itself, yet still delivers the (filler-padded) value to its register;
/// a store at such an address traps the same way and leaves memory unchanged.
pub proof fn lemma_misaligned_access(c: CpuState, ram: Seq<u8>)
    requires
        c.xr.len() == 32,
        c.scause == TrapCause::NoTrap,
        opcode(c.instruction) == 0x03 || (opcode(c.instruction) == 0x23 && funct3(c.instruction) < 4),
        ({
            let i = c.instruction;
            let ea = if opcode(i) == 0x03 {
                c.xr[rs1_of(i)].wrapping_add(imm_i(i))
            } else {
                c.xr[rs1_of(i)].wrapping_add(imm_s(i))
            };
            ea & access_mask(funct3(i)) != 0
        }),
    ensures
        ({
            let i = c.instruction;
            let (c1, ram1) = step_result(c, ram);
            &&& c1.sepc == c.pc
            &&& c1.pc == c.pc.wrapping_add(4)
            &&& opcode(i) == 0x03 ==> c1.scause == TrapCause::LoadAddressMisaligned && (rd_of(i)
                != 0 ==> c1.xr[rd_of(i)] == load_result(
                c,
                ram,
                funct3(i),
                c.xr[rs1_of(i)].wrapping_add(imm_i(i)),
            ).1)
            &&& opcode(i) == 0x23 ==> c1.scause == TrapCause::StoreAMOAddressMisaligned && ram1
                == ram
        }),
{
    let i = c.instruction;
    assert(funct3(i) < 8 && rd_of(i) < 32) by {
        assert((i >> 12) & 0x07 < 8 && (i >> 7) & 0x1F < 32) by (bit_vector);
    }
}

/// A naturally aligned load or store at or beyond guest memory's capacity traps as
/// an access fault whose resume address is the instruction's own, while `pc` has
/// already moved past it; the store writes nothing.
pub proof fn lemma_access_fault(c: CpuState, ram: Seq<u8>)
    requires
        c.xr.len() == 32,
        c.scause == TrapCause::NoTrap,
        opcode(c.instruction) == 0x03 || (opcode(c.instruction) == 0x23 && funct3(c.instruction) < 4),
        ({
            let i = c.instruction;
            let ea = if opcode(i) == 0x03 {
                c.xr[rs1_of(i)].wrapping_add(imm_i(i))
            } else {
                c.xr[rs1_of(i)].wrapping_add(imm_s(i))
            };
            ea & access_mask(funct3(i)) == 0 && ea >= RAM_SIZE
        }),
    ensures
        ({
            let i = c.instruction;
            let (c1, ram1) = step_result(c, ram);
            &&& c1.sepc == c.pc
            &&& c1.pc == c.pc.wrapping_add(4)
            &&& opcode(i) == 0x03 ==> c1.scause == TrapCause::LoadAccessFault
            &&& opcode(i) == 0x23 ==> c1.scause == TrapCause::StoreAMOAccessFault && ram1 == ram
        }),
{
    let i = c.instruction;
    assert(funct3(i) < 8 && rd_of(i) < 32) by {
        assert((i >> 12) & 0x07 < 8 && (i >> 7) & 0x1F < 32) by (bit_vector);
    }
}

/// Register 0 reads zero at every instruction boundary: it is zero after any
/// number of steps from a state where it is zero.
pub proof fn lemma_zero_register(c: CpuState, ram: Seq<u8>, n: nat)
    requires
        c.xr.len() == 32,
        c.xr[0] == 0,
    ensures
        run(c, ram, n).0.xr[0] == 0,
        run(c, ram, n).0.xr.len() == 32,
    decreases n,
{
    if n > 0 && c.scause == TrapCause::NoTrap {
        let (c1, ram1) = step_result(c, ram);
        assert(c1.xr.len() == 32 && c1.xr[0] == 0) by {
            let i = c.instruction;
            assert(rd_of(i) < 32) by {
                assert((i >> 7) & 0x1F < 32) by (bit_vector);
            }
        }
        lemma_zero_register(c1, ram1, (n - 1) as nat);
    }
}

} // verus!
