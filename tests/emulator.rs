use vmos::cpu::{Cpu, TrapCause};
use vmos::emul_state::{EmState, HostAction, Resource, SigBit, TimerTicker, HANDLE_COUNT};
use vmos::program_instance::ProgramInstance;
use vmos::RAM_SIZE;

const A0: u32 = 10;
const A1: u32 = 11;
const A2: u32 = 12;
const A7: u32 = 17;

fn addi(rd: u32, rs1: u32, imm: i32) -> u32 {
    (((imm as u32) & 0xFFF) << 20) | (rs1 << 15) | (rd << 7) | 0x13
}

fn lui(rd: u32, upper: u32) -> u32 {
    (upper << 12) | (rd << 7) | 0x37
}

fn load(rd: u32, rs1: u32, imm: i32, f3: u32) -> u32 {
    (((imm as u32) & 0xFFF) << 20) | (rs1 << 15) | (f3 << 12) | (rd << 7) | 0x03
}

fn store(rs2: u32, rs1: u32, imm: i32, f3: u32) -> u32 {
    let imm = (imm as u32) & 0xFFF;
    ((imm >> 5) << 25) | (rs2 << 20) | (rs1 << 15) | (f3 << 12) | ((imm & 0x1F) << 7) | 0x23
}

const ECALL: u32 = 0x0000_0073;
const EBREAK: u32 = 0x0010_0073;

fn memory_with(program: &[u32]) -> Vec<u8> {
    let mut mem = vec![0u8; RAM_SIZE as usize];
    for (i, w) in program.iter().enumerate() {
        mem[i * 4..i * 4 + 4].copy_from_slice(&w.to_le_bytes());
    }
    mem
}

fn machine(program: &[u32]) -> EmState {
    EmState::new(memory_with(program), Cpu::new(0))
}

#[test]
fn console_output_call_prints_and_resumes() {
    let mut em = machine(&[addi(A0, 0, 0x41), addi(A7, 0, 0x2A), ECALL]);
    em.cpu.run_until_trap(&mut em.mem, 100);
    assert_eq!(em.cpu.scause, TrapCause::EnvironmentCallFromUmode);
    assert_eq!(em.cpu.sepc, 8);

    let action = em.service_trap();
    assert_eq!(action, HostAction::PutChar(b'A'));
    assert_eq!(em.cpu.scause, TrapCause::NoTrap);
    assert_eq!(em.cpu.pc, 12);
}

#[test]
fn program_close_after_setting_return_code_requests_exit() {
    let mut mem = memory_with(&[
        addi(A0, 0, 4),
        addi(A1, 0, 1),
        addi(A2, 0, 0x100),
        addi(A7, 0, 2),
        ECALL,
        addi(A0, 0, 4),
        addi(A7, 0, 3),
        ECALL,
    ]);
    mem[0x100] = 7;
    let mut em = EmState::new(mem, Cpu::new(0));

    em.cpu.run_until_trap(&mut em.mem, 100);
    assert_eq!(em.service_trap(), HostAction::Resume);
    assert_eq!(em.cpu.xr[A0 as usize], 1);
    assert!(!em.exit_requested);

    em.cpu.run_until_trap(&mut em.mem, 100);
    assert_eq!(em.service_trap(), HostAction::Resume);
    assert!(em.exit_requested);
    assert_eq!(em.return_code, 7);
    assert!(em.handles[4].is_none());
}

#[test]
fn get_attributes_copies_the_return_code() {
    let mut em = machine(&[addi(A0, 0, 4), addi(A1, 0, 3), addi(A2, 0, 0x200), addi(A7, 0, 1), ECALL]);
    if let Some(Resource::Program(p)) = &mut em.handles[4] {
        p.return_code = -2;
    }
    em.cpu.run_until_trap(&mut em.mem, 100);
    assert_eq!(em.service_trap(), HostAction::Resume);
    assert_eq!(em.cpu.xr[A0 as usize], 1);
    assert_eq!(&em.mem[0x200..0x208], &(-2i64).to_le_bytes());
}

#[test]
fn function_code_zero_and_unknown_codes_return_to_host() {
    let mut em = machine(&[ECALL]);
    em.cpu.run_until_trap(&mut em.mem, 100);
    assert_eq!(em.service_trap(), HostAction::ReturnToHost);
    assert_eq!(em.cpu.scause, TrapCause::EnvironmentCallFromUmode);

    let mut em = machine(&[addi(A7, 0, 0x55), ECALL]);
    em.cpu.run_until_trap(&mut em.mem, 100);
    assert_eq!(em.service_trap(), HostAction::ReturnToHost);
    assert_eq!(em.cpu.pc, 4);
}

#[test]
fn breakpoint_is_not_serviced() {
    let mut em = machine(&[EBREAK]);
    em.cpu.run_until_trap(&mut em.mem, 100);
    assert_eq!(em.cpu.scause, TrapCause::Breakpoint);
    assert_eq!(em.service_trap(), HostAction::ReturnToHost);
}

#[test]
fn timer_with_signal_bit_64_fails_with_reason_one() {
    let mut em = machine(&[addi(A0, 0, 64), addi(A1, 0, 100), addi(A2, 0, 1), addi(A7, 0, 0x100), ECALL]);
    em.cpu.run_until_trap(&mut em.mem, 100);
    assert_eq!(em.service_trap(), HostAction::Resume);
    assert_eq!(em.cpu.xr[A0 as usize], 0);
    assert_eq!(em.cpu.xr[A1 as usize], 1);
    assert_eq!(em.handles.iter().filter(|h| h.is_some()).count(), 1);
}

#[test]
fn timer_takes_the_first_free_handle() {
    let mut em = machine(&[addi(A0, 0, 5), addi(A1, 0, 100), addi(A2, 0, 1), addi(A7, 0, 0x100), ECALL]);
    em.cpu.run_until_trap(&mut em.mem, 100);
    assert_eq!(
        em.service_trap(),
        HostAction::StartTimer { handle: 0, signal: 5, period: 100 }
    );
    assert_eq!(em.cpu.xr[A0 as usize], 1);
    assert_eq!(em.cpu.xr[A1 as usize], 0);
    match &em.handles[0] {
        Some(Resource::Timer(t)) => {
            assert_eq!(t.signal.bit(), 5);
            assert_eq!(t.period, 100);
            assert!(t.enabled);
        }
        _ => panic!("no timer at handle 0"),
    }
}

#[test]
fn timer_fails_with_reason_zero_when_table_is_full() {
    let mut em = machine(&[addi(A0, 0, 1), addi(A1, 0, 10), addi(A7, 0, 0x100), ECALL]);
    for h in 0..HANDLE_COUNT {
        if em.handles[h].is_none() {
            em.handles[h] = Some(TimerTicker::new(SigBit::new(2).unwrap(), 1, false).as_manageable());
        }
    }
    em.cpu.run_until_trap(&mut em.mem, 100);
    assert_eq!(em.service_trap(), HostAction::Resume);
    assert_eq!(em.cpu.xr[A0 as usize], 0);
    assert_eq!(em.cpu.xr[A1 as usize], 0);
}

#[test]
fn closing_a_timer_empties_its_slot() {
    let mut em = machine(&[addi(A0, 0, 9), addi(A7, 0, 3), ECALL, addi(A0, 0, 60), addi(A7, 0, 3), ECALL]);
    em.handles[9] = Some(TimerTicker::new(SigBit::new(3).unwrap(), 5, true).as_manageable());
    em.cpu.run_until_trap(&mut em.mem, 100);
    assert_eq!(em.service_trap(), HostAction::StopTimer { handle: 9 });
    assert!(em.handles[9].is_none());
    assert_eq!(em.cpu.xr[A0 as usize], 0);

    em.cpu.run_until_trap(&mut em.mem, 100);
    assert_eq!(em.service_trap(), HostAction::Resume);
    assert!(em.handles[60].is_none());
    assert!(!em.exit_requested);
}

#[test]
fn signal_bit_range() {
    assert_eq!(SigBit::new(63).unwrap().bit(), 63);
    assert!(SigBit::new(64).is_none());
    assert_eq!(ProgramInstance::new().return_code, 0);
}

#[test]
fn register_zero_stays_zero() {
    let mut em = machine(&[addi(0, 0, 5), EBREAK]);
    em.cpu.run_until_trap(&mut em.mem, 100);
    assert_eq!(em.cpu.xr[0], 0);
}

#[test]
fn immediates_sign_extend_from_their_width() {
    let mut em = machine(&[addi(A0, 0, -1), lui(A1, 0x80000), lui(A2, 0x12345), EBREAK]);
    em.cpu.run_until_trap(&mut em.mem, 100);
    assert_eq!(em.cpu.xr[A0 as usize], u64::MAX);
    assert_eq!(em.cpu.xr[A1 as usize], 0xFFFF_FFFF_8000_0000);
    assert_eq!(em.cpu.xr[A2 as usize], 0x1234_5000);
}

#[test]
fn misaligned_load_traps_and_still_delivers_value() {
    let mut mem = memory_with(&[load(A0, 0, 0x101, 3)]);
    for i in 0..8 {
        mem[0x101 + i] = (i + 1) as u8;
    }
    let mut em = EmState::new(mem, Cpu::new(0));
    em.cpu.run_until_trap(&mut em.mem, 100);
    assert_eq!(em.cpu.scause, TrapCause::LoadAddressMisaligned);
    assert_eq!(em.cpu.sepc, 0);
    assert_eq!(em.cpu.pc, 4);
    assert_eq!(em.cpu.stval, 0x101);
    assert_eq!(em.cpu.xr[A0 as usize], 0x0807_0605_0403_0201);
}

#[test]
fn misaligned_store_leaves_memory_alone() {
    let mut em = machine(&[addi(A1, 0, 0x7F), store(A1, 0, 0x103, 2)]);
    em.cpu.run_until_trap(&mut em.mem, 100);
    assert_eq!(em.cpu.scause, TrapCause::StoreAMOAddressMisaligned);
    assert_eq!(em.cpu.sepc, 4);
    assert_eq!(&em.mem[0x100..0x108], &[0u8; 8]);
}

#[test]
fn access_beyond_memory_faults_at_the_instruction() {
    let mut em = machine(&[lui(A1, 0x100), load(A0, A1, 0, 2)]);
    em.cpu.run_until_trap(&mut em.mem, 100);
    assert_eq!(em.cpu.scause, TrapCause::LoadAccessFault);
    assert_eq!(em.cpu.sepc, 4);
    assert_eq!(em.cpu.pc, 8);
    assert_eq!(em.cpu.xr[A0 as usize], 0xFFFF_FFFF_CCCC_CCCC);

    let mut em = machine(&[lui(A1, 0x100), store(A1, A1, 0, 3)]);
    em.cpu.run_until_trap(&mut em.mem, 100);
    assert_eq!(em.cpu.scause, TrapCause::StoreAMOAccessFault);
    assert_eq!(em.cpu.sepc, 4);
}

#[test]
fn stores_are_little_endian() {
    let mut em = machine(&[lui(A1, 0x12345), addi(A1, A1, 0x678), store(A1, 0, 0x200, 2), load(A2, 0, 0x200, 4), EBREAK]);
    em.cpu.run_until_trap(&mut em.mem, 100);
    assert_eq!(&em.mem[0x200..0x204], &[0x78, 0x56, 0x34, 0x12]);
    assert_eq!(em.cpu.xr[A2 as usize], 0x78);
}

#[test]
fn illegal_instruction_does_not_advance() {
    let mut em = machine(&[addi(A0, 0, 1), 0xFFFF_FFFF]);
    em.cpu.run_until_trap(&mut em.mem, 100);
    assert_eq!(em.cpu.scause, TrapCause::IllegalInstruction);
    assert_eq!(em.cpu.sepc, 4);
    assert_eq!(em.cpu.pc, 4);
    assert_eq!(em.cpu.stval, 0xFFFF_FFFF);
}

#[test]
fn branches_and_jumps() {
    // beq x0, x0, +8 skips one instruction; jal ra, +8 links and skips another.
    let beq = (1u32 << 10) | 0x63;
    let jal = (1u32 << 7) | (8u32 << 20) | 0x6F;
    let mut em = machine(&[beq, addi(A0, 0, 1), jal, addi(A0, 0, 2), EBREAK]);
    em.cpu.run_until_trap(&mut em.mem, 100);
    assert_eq!(em.cpu.xr[A0 as usize], 0);
    assert_eq!(em.cpu.xr[1], 12);
    assert_eq!(em.cpu.sepc, 16);
}

#[test]
fn step_budget_stops_the_run() {
    let jal_self = 0x0000_006F;
    let mut em = machine(&[jal_self]);
    em.cpu.run_until_trap(&mut em.mem, 50);
    assert_eq!(em.cpu.scause, TrapCause::NoTrap);
    assert_eq!(em.cpu.pc, 0);
}

#[test]
fn handles_beyond_the_table_are_ignored() {
    let mut em = machine(&[addi(A0, 0, 100), addi(A7, 0, 1), ECALL, addi(A0, 0, 100), addi(A7, 0, 3), ECALL]);
    em.cpu.run_until_trap(&mut em.mem, 100);
    assert_eq!(em.service_trap(), HostAction::Resume);
    assert_eq!(em.cpu.xr[A0 as usize], 0);
    em.cpu.run_until_trap(&mut em.mem, 100);
    assert_eq!(em.service_trap(), HostAction::Resume);
    assert_eq!(em.handles.len(), HANDLE_COUNT);
    assert!(em.handles[4].is_some());
}

#[test]
fn attributes_of_an_empty_handle_touch_no_slot() {
    let mut em = machine(&[addi(A0, 0, 5), addi(A1, 0, 1), addi(A2, 0, 0x300), addi(A7, 0, 1), ECALL,
        addi(A0, 0, 5), addi(A7, 0, 2), ECALL]);
    em.cpu.run_until_trap(&mut em.mem, 100);
    assert_eq!(em.service_trap(), HostAction::Resume);
    assert_eq!(em.cpu.xr[A0 as usize], 0);
    assert_eq!(em.cpu.pc, 20);
    assert_eq!(&em.mem[0x300..0x308], &[0u8; 8]);
    em.cpu.run_until_trap(&mut em.mem, 100);
    assert_eq!(em.service_trap(), HostAction::Resume);
    assert_eq!(em.cpu.xr[A0 as usize], 0);
    assert!(em.handles[5].is_none());
}

#[test]
fn fetch_with_a_pending_trap_keeps_its_descriptor() {
    let mut em = machine(&[addi(A0, 0, 7)]);
    em.cpu.scause = TrapCause::LoadAccessFault;
    em.cpu.sepc = 0x40;
    em.cpu.stval = 0x123;
    em.cpu.run_until_trap(&mut em.mem, 100);
    assert_eq!(em.cpu.instruction, addi(A0, 0, 7));
    assert_eq!(em.cpu.scause, TrapCause::LoadAccessFault);
    assert_eq!(em.cpu.sepc, 0x40);
    assert_eq!(em.cpu.stval, 0x123);
    assert_eq!(em.cpu.xr[A0 as usize], 0);
}

#[test]
fn handles_at_or_beyond_sixty_four_name_no_resource() {
    let mut em = machine(&[
        addi(A0, 0, 64), addi(A1, 0, 1), addi(A2, 0, 0x300), addi(A7, 0, 1), ECALL,
        addi(A0, 0, 64), addi(A7, 0, 2), ECALL,
        addi(A0, 0, 64), addi(A7, 0, 3), ECALL,
    ]);
    em.mem[0x300] = 9;
    // Get-attributes and set-attributes touch no slot and report a zero mask.
    for _ in 0..2 {
        em.cpu.run_until_trap(&mut em.mem, 100);
        assert_eq!(em.service_trap(), HostAction::Resume);
        assert_eq!(em.cpu.scause, TrapCause::NoTrap);
        assert_eq!(em.cpu.xr[A0 as usize], 0);
    }
    // Closing clears nothing and leaves the registers alone.
    em.cpu.run_until_trap(&mut em.mem, 100);
    assert_eq!(em.service_trap(), HostAction::Resume);
    assert_eq!(em.cpu.xr[A0 as usize], 64);
    assert_eq!(em.handles.len(), HANDLE_COUNT);
    assert!(!em.exit_requested);
    assert_eq!(em.mem[0x300], 9);
    match &em.handles[4] {
        Some(Resource::Program(p)) => assert_eq!(p.return_code, 0),
        _ => panic!("program instance missing"),
    }
}

#[test]
fn load_past_the_address_space_reads_filler() {
    // ld a0, -4(x0): the last four bytes lie beyond 2^64 and must not wrap to address 0.
    let mut em = machine(&[load(A0, 0, -4, 3)]);
    em.cpu.run_until_trap(&mut em.mem, 100);
    assert_eq!(em.cpu.scause, TrapCause::LoadAddressMisaligned);
    assert_eq!(em.cpu.stval, 0xFFFF_FFFF_FFFF_FFFC);
    assert_eq!(em.cpu.xr[A0 as usize], 0xCCCC_CCCC_CCCC_CCCC);
}
