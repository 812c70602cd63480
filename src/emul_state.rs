//! Supervisor state: guest memory, the processor, the handle table of manageable
//! resources, and the dispatch of environment calls.
use vstd::prelude::*;

use crate::cpu::{Cpu, CpuState, TrapCause};
use crate::program_instance::{program_get_result, program_set_result, ProgramInstance};

verus! {

/// Number of slots in a handle table.
pub const HANDLE_COUNT: usize = 64;

/// Handle at which the running program's own resource is installed.
pub const PROGRAM_HANDLE: usize = 4;

/// Bounds-checked signal bit identifier, always in `[0, 64)`.
pub struct SigBit(usize);

impl SigBit {
    pub closed spec fn value(&self) -> nat {
        self.0 as nat
    }

    /// The signal bit `bit`, or `None` when it lies outside `[0, 64)`.
    pub fn new(bit: u64) -> (r: Option<Self>)
        ensures
            r.is_some() == (bit < 64),
            r.is_some() ==> r.unwrap().value() == bit,
    {
        if bit >= 64 {
            None
        } else {
            Some(Self(bit as usize))
        }
    }

    /// The signal bit's number.
    pub fn bit(&self) -> (r: usize)
        ensures
            r == self.value(),
    {
        self.0
    }
}

/// A periodic timer resource; each period it raises its signal bit.
pub struct TimerTicker {
    pub signal: SigBit,
    pub period: u32,
    pub enabled: bool,
}

impl TimerTicker {
    /// A timer bound to `signal`, firing every `period` when `enabled`.
    pub fn new(signal: SigBit, period: u32, enabled: bool) -> (r: Self)
        ensures
            r.signal.value() == signal.value(),
            r.period == period,
            r.enabled == enabled,
    {
        Self { signal, period, enabled }
    }

    /// This timer as a handle-table resource.
    pub fn as_manageable(self) -> (r: Resource)
        ensures
            r == Resource::Timer(self),
    {
        Resource::Timer(self)
    }
}

impl ProgramInstance {
    /// This program instance as a handle-table resource.
    pub fn as_manageable(self) -> (r: Resource)
        ensures
            r == Resource::Program(self),
    {
        Resource::Program(self)
    }
}

/// Anything reachable through the handle table.
pub enum Resource {
    Program(ProgramInstance),
    Timer(TimerTicker),
}

/// What the host must do after a trap has been looked at.
#[derive(Debug, Clone, Copy, PartialEq, Eq, Structural)]
pub enum HostAction {
    /// The call was serviced; run the guest again.
    Resume,
    /// Print this byte, then run the guest again.
    PutChar(u8),
    /// Start a periodic timer that raises `signal` every `period`, then run the guest again.
    StartTimer { handle: u64, signal: u64, period: u32 },
    /// Stop the periodic timer of `handle`, which was closed, then run the guest again.
    StopTimer { handle: u64 },
    /// Control goes back to the host.
    ReturnToHost,
}

/// Supervisor state of one running guest.
pub struct EmState {
    /// Guest memory.
    pub mem: Vec<u8>,
    /// The guest's processor.
    pub cpu: Cpu,
    /// Return code, copied from the program instance when it is closed.
    pub return_code: i64,
    /// Set once the program asks to quit.
    pub exit_requested: bool,
    /// The handle table.
    pub handles: Vec<Option<Resource>>,
}

/// The processor after a serviced call: trap dismissed, resuming past the call.
pub open spec fn resumed(c: CpuState) -> CpuState {
    CpuState { pc: c.sepc.wrapping_add(4), scause: TrapCause::NoTrap, ..c }
}

pub open spec fn with_reg(c: CpuState, r: int, v: u64) -> CpuState {
    CpuState { xr: c.xr.update(r, v), ..c }
}

/// `i` is the first empty slot of `t`.
pub open spec fn is_first_free(t: Seq<Option<Resource>>, i: int) -> bool {
    0 <= i < t.len() && t[i] is None && forall|j: int| 0 <= j < i ==> t[j] is Some
}

pub open spec fn has_free(t: Seq<Option<Resource>>) -> bool {
    exists|i: int| 0 <= i < t.len() && t[i] is None
}

/// A resource that the handle `h` (register a0) names, if any.
pub open spec fn slot(t: Seq<Option<Resource>>, h: u64) -> Option<Resource> {
    if (h as int) < t.len() {
        t[h as int]
    } else {
        None
    }
}

/// Table after clearing the slot of `h`; a handle beyond the table changes nothing.
pub open spec fn cleared(t: Seq<Option<Resource>>, h: u64) -> Seq<Option<Resource>> {
    if (h as int) < t.len() {
        t.update(h as int, None)
    } else {
        t
    }
}

/// Function codes of environment calls that the supervisor services.
pub open spec fn is_serviced(code: u64) -> bool {
    code == 1 || code == 2 || code == 3 || code == 0x2A || code == 0x100
}

/// A handle table with every slot empty but the program's own.
pub open spec fn initial_table(t: Seq<Option<Resource>>) -> bool {
    &&& t.len() == HANDLE_COUNT
    &&& t[PROGRAM_HANDLE as int] == Some(Resource::Program(ProgramInstance { return_code: 0 }))
    &&& forall|i: int| 0 <= i < t.len() && i != PROGRAM_HANDLE ==> t[i] is None
}

impl EmState {
    /// The handle table has its fixed size.
    pub open spec fn wf(&self) -> bool {
        self.handles@.len() == HANDLE_COUNT
    }

    /// Supervisor state over guest memory `mem` and processor `cpu`, with a fresh
    /// program instance at handle 4 and every other handle empty.
    pub fn new(mem: Vec<u8>, cpu: Cpu) -> (r: EmState)
        ensures
            r.wf(),
            r.mem@ == mem@,
            r.cpu@ == cpu@,
            r.return_code == 0,
            !r.exit_requested,
            initial_table(r.handles@),
    {
        let mut handles: Vec<Option<Resource>> = Vec::new();
        let mut i: usize = 0;
        while i < HANDLE_COUNT
            invariant
                i <= HANDLE_COUNT,
                handles@.len() == i,
                forall|j: int| 0 <= j < i ==> handles@[j] is None,
            decreases HANDLE_COUNT - i,
        {
            handles.push(None);
            i = i + 1;
        }
        handles.set(PROGRAM_HANDLE, Some(ProgramInstance::new().as_manageable()));
        EmState { mem, cpu, return_code: 0, exit_requested: false, handles }
    }

    /// The first empty handle, if any.
    fn find_free_handle(&self) -> (r: Option<usize>)
        ensures
            r matches Some(i) ==> is_first_free(self.handles@, i as int),
            r is None ==> !has_free(self.handles@),
    {
        let mut i: usize = 0;
        while i < self.handles.len()
            invariant
                i <= self.handles@.len(),
                forall|j: int| 0 <= j < i ==> self.handles@[j] is Some,
            decreases self.handles@.len() - i,
        {
            if self.handles[i].is_none() {
                return Some(i);
            }
            i = i + 1;
        }
        None
    }

    /// Dismisses the pending call: clears the trap and resumes past the call.
    fn resume(&mut self)
        ensures
            final(self).cpu@ == resumed(old(self).cpu@),
            final(self).mem@ == old(self).mem@,
            final(self).handles@ == old(self).handles@,
            final(self).return_code == old(self).return_code,
            final(self).exit_requested == old(self).exit_requested,
    {
        self.cpu.pc = self.cpu.sepc.wrapping_add(4);
        self.cpu.scause = TrapCause::NoTrap;
    }

    /// Get-attributes on the resource at `which`; a0 receives the mask of attributes
    /// copied, zero for an empty or unknown handle.
    fn get_attributes(&mut self, which: u64)
        requires
            old(self).wf(),
        ensures
            final(self).wf(),
            final(self).handles@ == old(self).handles@,
            final(self).return_code == old(self).return_code,
            final(self).exit_requested == old(self).exit_requested,
            match slot(old(self).handles@, which) {
                Some(Resource::Program(p)) => (final(self).cpu@, final(self).mem@)
                    == program_get_result(p, old(self).cpu@, old(self).mem@),
                Some(Resource::Timer(_)) => final(self).cpu@ == with_reg(old(self).cpu@, 10, 0)
                    && final(self).mem@ == old(self).mem@,
                None => final(self).cpu@ == with_reg(old(self).cpu@, 10, 0) && final(self).mem@
                    == old(self).mem@,
            },
    {
        if which < HANDLE_COUNT as u64 {
            let h = which as usize;
            match &self.handles[h] {
                Some(Resource::Program(p)) => p.get_attributes(&mut self.cpu, &mut self.mem),
                _ => {
                    self.cpu.xr[10] = 0;
                },
            }
        } else {
            self.cpu.xr[10] = 0;
        }
    }

    /// Set-attributes on the resource at `which`; a0 receives the mask of attributes
    /// altered, zero for an empty or unknown handle.
    fn set_attributes(&mut self, which: u64)
        requires
            old(self).wf(),
        ensures
            final(self).wf(),
            final(self).mem@ == old(self).mem@,
            final(self).return_code == old(self).return_code,
            final(self).exit_requested == old(self).exit_requested,
            match slot(old(self).handles@, which) {
                Some(Resource::Program(p)) => {
                    let (p1, c1) = program_set_result(p, old(self).cpu@, old(self).mem@);
                    final(self).cpu@ == c1 && final(self).handles@ == old(self).handles@.update(
                        which as int,
                        Some(Resource::Program(p1)),
                    )
                },
                Some(Resource::Timer(_)) => final(self).cpu@ == with_reg(old(self).cpu@, 10, 0)
                    && final(self).handles@ == old(self).handles@,
                None => final(self).cpu@ == with_reg(old(self).cpu@, 10, 0) && final(self).handles@
                    == old(self).handles@,
            },
    {
        if which < HANDLE_COUNT as u64 {
            let h = which as usize;
            let mut taken: Option<Resource> = None;
            self.handles.set_and_swap(h, &mut taken);
            match &mut taken {
                Some(Resource::Program(p)) => p.set_attributes(&mut self.cpu, &self.mem),
                _ => {
                    self.cpu.xr[10] = 0;
                },
            }
            self.handles.set_and_swap(h, &mut taken);
            proof {
                if !(slot(old(self).handles@, which) matches Some(Resource::Program(_))) {
                    assert(self.handles@ =~= old(self).handles@);
                }
            }
        } else {
            self.cpu.xr[10] = 0;
        }
    }

    /// Closes the resource at `which`; the slot is empty afterwards whatever the
    /// resource did. Closing the program instance requests exit with its return code.
    fn close(&mut self, which: u64) -> (was_timer: bool)
        requires
            old(self).wf(),
        ensures
            was_timer == (slot(old(self).handles@, which) matches Some(Resource::Timer(_))),
            final(self).wf(),
            final(self).mem@ == old(self).mem@,
            final(self).handles@ == cleared(old(self).handles@, which),
            match slot(old(self).handles@, which) {
                Some(Resource::Program(p)) => final(self).cpu@ == old(self).cpu@
                    && final(self).return_code == p.return_code && final(self).exit_requested,
                Some(Resource::Timer(_)) => final(self).cpu@ == with_reg(old(self).cpu@, 10, 0)
                    && final(self).return_code == old(self).return_code
                    && final(self).exit_requested == old(self).exit_requested,
                None => final(self).cpu@ == old(self).cpu@ && final(self).return_code == old(
                    self,
                ).return_code && final(self).exit_requested == old(self).exit_requested,
            },
    {
        if which < HANDLE_COUNT as u64 {
            let h = which as usize;
            let mut taken: Option<Resource> = None;
            self.handles.set_and_swap(h, &mut taken);
            match taken {
                Some(Resource::Program(p)) => {
                    self.return_code = p.return_code;
                    self.exit_requested = true;
                    false
                },
                Some(Resource::Timer(_)) => {
                    self.cpu.xr[10] = 0;
                    true
                },
                None => false,
            }
        } else {
            false
        }
    }

    /// Creates a timer from a0 (signal bit), a1 (period, low 32 bits) and a2
    /// (non-zero when enabled). On success a0 = 1 and a1 = the new handle; on
    /// failure a0 = 0 and a1 = 0 when no handle is free, 1 when the signal bit is
    /// out of range.
    fn create_timer(&mut self) -> (r: Option<usize>)
        requires
            old(self).wf(),
        ensures
            final(self).wf(),
            final(self).mem@ == old(self).mem@,
            final(self).return_code == old(self).return_code,
            final(self).exit_requested == old(self).exit_requested,
            ({
                let c = old(self).cpu@;
                if c.xr[10] >= 64 {
                    r is None && final(self).cpu@ == with_reg(with_reg(c, 10, 0), 11, 1)
                        && final(self).handles@ == old(self).handles@
                } else if !has_free(old(self).handles@) {
                    r is None && final(self).cpu@ == with_reg(with_reg(c, 10, 0), 11, 0)
                        && final(self).handles@ == old(self).handles@
                } else {
                    &&& r matches Some(i)
                    &&& is_first_free(old(self).handles@, i as int)
                    &&& final(self).cpu@ == with_reg(with_reg(c, 10, 1), 11, i as u64)
                    &&& final(self).handles@.len() == old(self).handles@.len()
                    &&& forall|j: int|
                        0 <= j < old(self).handles@.len() && j != i ==> final(self).handles@[j]
                            == old(self).handles@[j]
                    &&& final(self).handles@[i as int] matches Some(Resource::Timer(t))
                    &&& t.signal.value() == c.xr[10]
                    &&& t.period == c.xr[11] as u32
                    &&& t.enabled == (c.xr[12] != 0)
                }
            }),
    {
        match SigBit::new(self.cpu.xr[10]) {
            Some(signal) => {
                let period = self.cpu.xr[11] as u32;
                let enabled = self.cpu.xr[12] != 0;
                match self.find_free_handle() {
                    Some(which) => {
                        self.handles.set(
                            which,
                            Some(TimerTicker::new(signal, period, enabled).as_manageable()),
                        );
                        self.cpu.xr[10] = 1;
                        self.cpu.xr[11] = which as u64;
                        Some(which)
                    },
                    None => {
                        self.cpu.xr[10] = 0;
                        self.cpu.xr[11] = 0;
                        None
                    },
                }
            },
            None => {
                self.cpu.xr[10] = 0;
                self.cpu.xr[11] = 1;
                None
            },
        }
    }

    /// Looks at the pending trap. An environment call with a serviced function code
    /// (a7) is carried out and dismissed, resuming past the call; every other trap,
    /// function code 0 and unknown codes hand control back to the host, with nothing
    /// changed. A handle (a0) beyond the table names no resource, like an empty slot.
    pub fn service_trap(&mut self) -> (a: HostAction)
        requires
            old(self).wf(),
        ensures
            final(self).wf(),
            old(self).exit_requested ==> final(self).exit_requested,
            final(self).mem@.len() == old(self).mem@.len(),
            ({
                let c = old(self).cpu@;
                let code = c.xr[17];
                let h = c.xr[10];
                let r = resumed(c);
                let t = old(self).handles@;
                if c.scause != TrapCause::EnvironmentCallFromUmode || !is_serviced(code) {
                    &&& a == HostAction::ReturnToHost
                    &&& final(self).cpu@ == c
                    &&& final(self).mem@ == old(self).mem@
                    &&& final(self).handles@ == t
                    &&& final(self).return_code == old(self).return_code
                    &&& final(self).exit_requested == old(self).exit_requested
                } else if code == 0x2A {
                    &&& a == HostAction::PutChar(h as u8)
                    &&& final(self).cpu@ == r
                    &&& final(self).mem@ == old(self).mem@
                    &&& final(self).handles@ == t
                    &&& final(self).return_code == old(self).return_code
                    &&& final(self).exit_requested == old(self).exit_requested
                } else if code == 1 {
                    &&& a == HostAction::Resume
                    &&& final(self).handles@ == t
                    &&& final(self).return_code == old(self).return_code
                    &&& final(self).exit_requested == old(self).exit_requested
                    &&& match slot(t, h) {
                        Some(Resource::Program(p)) => (final(self).cpu@, final(self).mem@)
                            == program_get_result(p, r, old(self).mem@),
                        Some(Resource::Timer(_)) => final(self).cpu@ == with_reg(r, 10, 0)
                            && final(self).mem@ == old(self).mem@,
                        None => final(self).cpu@ == with_reg(r, 10, 0) && final(self).mem@ == old(
                            self,
                        ).mem@,
                    }
                } else if code == 2 {
                    &&& a == HostAction::Resume
                    &&& final(self).mem@ == old(self).mem@
                    &&& final(self).return_code == old(self).return_code
                    &&& final(self).exit_requested == old(self).exit_requested
                    &&& match slot(t, h) {
                        Some(Resource::Program(p)) => {
                            let (p1, c1) = program_set_result(p, r, old(self).mem@);
                            final(self).cpu@ == c1 && final(self).handles@ == t.update(
                                h as int,
                                Some(Resource::Program(p1)),
                            )
                        },
                        Some(Resource::Timer(_)) => final(self).cpu@ == with_reg(r, 10, 0)
                            && final(self).handles@ == t,
                        None => final(self).cpu@ == with_reg(r, 10, 0) && final(self).handles@ == t,
                    }
                } else if code == 3 {
                    &&& a == if slot(t, h) matches Some(Resource::Timer(_)) {
                        HostAction::StopTimer { handle: h }
                    } else {
                        HostAction::Resume
                    }
                    &&& final(self).mem@ == old(self).mem@
                    &&& final(self).handles@ == cleared(t, h)
                    &&& match slot(t, h) {
                        Some(Resource::Program(p)) => final(self).cpu@ == r
                            && final(self).return_code == p.return_code
                            && final(self).exit_requested,
                        Some(Resource::Timer(_)) => final(self).cpu@ == with_reg(r, 10, 0)
                            && final(self).return_code == old(self).return_code
                            && final(self).exit_requested == old(self).exit_requested,
                        None => final(self).cpu@ == r && final(self).return_code == old(
                            self,
                        ).return_code && final(self).exit_requested == old(self).exit_requested,
                    }
                } else {
                    &&& final(self).mem@ == old(self).mem@
                    &&& final(self).return_code == old(self).return_code
                    &&& final(self).exit_requested == old(self).exit_requested
                    &&& if h >= 64 {
                        &&& a == HostAction::Resume
                        &&& final(self).cpu@ == with_reg(with_reg(r, 10, 0), 11, 1)
                        &&& final(self).handles@ == t
                    } else if !has_free(t) {
                        &&& a == HostAction::Resume
                        &&& final(self).cpu@ == with_reg(with_reg(r, 10, 0), 11, 0)
                        &&& final(self).handles@ == t
                    } else {
                        exists|i: int|
                            {
                                &&& is_first_free(t, i)
                                &&& final(self).cpu@ == with_reg(with_reg(r, 10, 1), 11, i as u64)
                                &&& final(self).handles@.len() == t.len()
                                &&& forall|j: int|
                                    0 <= j < t.len() && j != i ==> final(self).handles@[j] == t[j]
                                &&& final(self).handles@[i] matches Some(Resource::Timer(tm))
                                &&& tm.signal.value() == h
                                &&& tm.period == c.xr[11] as u32
                                &&& tm.enabled == (c.xr[12] != 0)
                                &&& a == if tm.enabled {
                                    HostAction::StartTimer {
                                        handle: i as u64,
                                        signal: h,
                                        period: tm.period,
                                    }
                                } else {
                                    HostAction::Resume
                                }
                            }
                    }
                }
            }),
    {
        if self.cpu.scause != TrapCause::EnvironmentCallFromUmode {
            return HostAction::ReturnToHost;
        }
        let code = self.cpu.xr[17];
        let which = self.cpu.xr[10];
        if code == 0x2A {
            self.resume();
            HostAction::PutChar(which as u8)
        } else if code == 1 {
            self.resume();
            self.get_attributes(which);
            HostAction::Resume
        } else if code == 2 {
            self.resume();
            self.set_attributes(which);
            HostAction::Resume
        } else if code == 3 {
            self.resume();
            if self.close(which) {
                HostAction::StopTimer { handle: which }
            } else {
                HostAction::Resume
            }
        } else if code == 0x100 {
            let period = self.cpu.xr[11] as u32;
            let enabled = self.cpu.xr[12] != 0;
            self.resume();
            match self.create_timer() {
                Some(h) => {
                    if enabled {
                        HostAction::StartTimer { handle: h as u64, signal: which, period }
                    } else {
                        HostAction::Resume
                    }
                },
                None => HostAction::Resume,
            }
        } else {
            HostAction::ReturnToHost
        }
    }
}

} // verus!
