//! The resource that stands for the running program itself.
use vstd::prelude::*;

use crate::cpu::{after_load_check, after_store_check, dword_at, put_dword, store_fault, Cpu, CpuState, TrapCause};

verus! {

/// Lets a program set its return code before it quits.
pub struct ProgramInstance {
    pub return_code: i64,
}

/// Registers and memory after a get-attributes request on a program instance:
/// bit 0 of the mask (a1) copies the return code to the vector at a2.
pub open spec fn program_get_result(p: ProgramInstance, c: CpuState, mem: Seq<u8>) -> (CpuState, Seq<u8>) {
    let mask = c.xr[11];
    let base = c.xr[12];
    let (c1, m1) = if mask & 1 != 0 {
        (
            after_store_check(c, base, 7),
            if store_fault(base, 7) == TrapCause::NoTrap {
                put_dword(mem, base, p.return_code as u64)
            } else {
                mem
            },
        )
    } else {
        (c, mem)
    };
    (CpuState { xr: c1.xr.update(10, mask & 1), ..c1 }, m1)
}

/// The program instance and registers after a set-attributes request: bit 0 of
/// the mask (a1) reads the return code from the vector at a2.
pub open spec fn program_set_result(p: ProgramInstance, c: CpuState, mem: Seq<u8>) -> (ProgramInstance, CpuState) {
    let mask = c.xr[11];
    let base = c.xr[12];
    let (p1, c1) = if mask & 1 != 0 {
        (ProgramInstance { return_code: dword_at(mem, base as int) as i64 }, after_load_check(c, base, 7))
    } else {
        (p, c)
    };
    (p1, CpuState { xr: c1.xr.update(10, mask & 1), ..c1 })
}

impl ProgramInstance {
    /// A program instance whose return code is zero.
    pub fn new() -> (r: Self)
        ensures
            r.return_code == 0,
    {
        Self { return_code: 0 }
    }

    /// Copies the selected attributes into guest memory; a0 receives the mask of
    /// attributes copied.
    pub fn get_attributes(&self, cpu: &mut Cpu, mem: &mut Vec<u8>)
        ensures
            (final(cpu)@, final(mem)@) == program_get_result(*self, old(cpu)@, old(mem)@),
    {
        let mask = cpu.xr[11];
        let vecbase = cpu.xr[12];
        if (mask & 0x01) != 0 {
            cpu.store_dword(mem, vecbase, self.return_code as u64);
        }
        cpu.xr[10] = mask & 0x01;
        assert(cpu@.xr =~= program_get_result(*self, old(cpu)@, old(mem)@).0.xr);
    }

    /// Reads the selected attributes from guest memory; a0 receives the mask of
    /// attributes altered.
    pub fn set_attributes(&mut self, cpu: &mut Cpu, mem: &Vec<u8>)
        ensures
            (*final(self), final(cpu)@) == program_set_result(*old(self), old(cpu)@, mem@),
    {
        let mask = cpu.xr[11];
        let vecbase = cpu.xr[12];
        if (mask & 0x01) != 0 {
            self.return_code = cpu.load_dword(mem, vecbase) as i64;
        }
        cpu.xr[10] = mask & 0x01;
        assert(cpu@.xr =~= program_set_result(*old(self), old(cpu)@, mem@).1.xr);
    }
}

} // verus!
