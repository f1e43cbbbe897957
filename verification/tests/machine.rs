use dnavm::bus::{Bus, MemRange, CURRENT_TASK_ADDR};
use dnavm::cpu::{Access, CPUMode, Cpu, TRAP_CAUSE_ADDR};
use dnavm::device::{Keyboard, Mouse};

fn standard_ranges() -> Vec<MemRange> {
    let mut v = vec![
        MemRange::Bootloader(0x0000, 0x0400),
        MemRange::KernelCore(0x0400, 0x1000),
        MemRange::KernelTraps(0x1000, 0x1200),
        MemRange::KernelData(0x1200, 0x1800),
        MemRange::KernelHeap(0x1800, 0x2000),
        MemRange::KernelStack(0x2000, 0x2400),
        MemRange::Vram(0x2400, 0x3400),
        MemRange::Mmio(0x3400, 0x3800),
    ];
    v.push(MemRange::UserCode(0x3800, 0x4000, 0));
    v.push(MemRange::UserData(0x4000, 0x4200, 0));
    v.push(MemRange::UserHeap(0x4200, 0x4C00, 0));
    v.push(MemRange::UserStack(0x4C00, 0x5000, 0));
    v.push(MemRange::UserCode(0x5000, 0x5800, 1));
    v.push(MemRange::UserData(0x5800, 0x5A00, 1));
    v.push(MemRange::UserHeap(0x5A00, 0x6400, 1));
    v.push(MemRange::UserStack(0x6400, 0x6800, 1));
    v
}

fn fresh_bus() -> Bus {
    Bus::new(Mouse::new(), Keyboard::new(), standard_ranges())
}

fn fresh_machine() -> (Cpu, Bus) {
    (Cpu::new(0x1000), fresh_bus())
}

/// Access is permitted exactly when a region contains the address and the
/// policy row for (kind, mode, intent, task) matches: enumerated over every
/// region kind, both modes, all three intents, and the current and another
/// task id.
#[test]
fn access_policy_enumeration() {
    let mut bus = fresh_bus();
    // The current task is task 0.
    bus.force_set(CURRENT_TASK_ADDR, 0);
    // One probe address inside each region, with its kind tag.
    let probes: Vec<(u16, &str, u8)> = vec![
        (0x0001, "bootloader", 0),
        (0x0500, "kernelcore", 0),
        (0x1100, "kerneltraps", 0),
        (0x1300, "kerneldata", 0),
        (0x1900, "kernelheap", 0),
        (0x2100, "kernelstack", 0),
        (0x2500, "vram", 0),
        (0x3500, "mmio", 0),
        (0x3900, "usercode", 0),
        (0x4100, "userdata", 0),
        (0x4300, "userheap", 0),
        (0x4D00, "userstack", 0),
        (0x5100, "usercode", 1),
        (0x5900, "userdata", 1),
        (0x5B00, "userheap", 1),
        (0x6500, "userstack", 1),
        (0xFF00, "gap", 0),
    ];
    for (addr, kind, task) in probes {
        for mode in [CPUMode::K, CPUMode::U] {
            for access in [Access::R, Access::W, Access::X] {
                let got = bus.check_access(addr, mode, access).is_ok();
                let user = mode == CPUMode::U;
                let rx = access == Access::R || access == Access::X;
                let rw = access == Access::R || access == Access::W;
                let own = task == 0;
                let expect = match kind {
                    "bootloader" | "kernelcore" | "kerneltraps" => !user && rx,
                    "kerneldata" | "kernelheap" | "kernelstack" | "vram" | "mmio" => !user && rw,
                    "usercode" => (!user && rx) || (user && rx && own),
                    "userdata" | "userheap" | "userstack" => (!user && rw) || (user && rw && own),
                    _ => false,
                };
                assert_eq!(got, expect, "addr {:#x} mode {:?} access {:?}", addr, mode, access);
            }
        }
    }
}

/// Register move: `mov rr r0, r1` with r1 preset moves the byte, advances
/// the program counter by the encoded length, and leaves the flags alone.
#[test]
fn register_move() {
    let (mut cpu, mut bus) = fresh_machine();
    // mov rr r0, r1
    bus.force_set(0x0000, 0x04);
    bus.force_set(0x0001, 0x01);
    cpu.regs[1] = 0x42;
    let flags_before = cpu.flags;
    cpu.step(&mut bus);
    assert_eq!(cpu.regs[0], 0x42);
    assert_eq!(cpu.pc, 2);
    assert_eq!(cpu.flags, flags_before);
}

/// Immediate add with overflow: 0x80 + 0x80 wraps to zero with carry,
/// zero and signed overflow set.
#[test]
fn immediate_add_overflow() {
    let (mut cpu, mut bus) = fresh_machine();
    // mov ri r0, 0x80 ; add ri r0, 0x80
    for (i, b) in [0x04u8, 0xC0, 0x80, 0x08, 0xC0, 0x80].iter().enumerate() {
        bus.force_set(i as u16, *b);
    }
    cpu.step(&mut bus);
    cpu.step(&mut bus);
    assert_eq!(cpu.regs[0], 0x00);
    assert!(cpu.flags.zero);
    assert!(cpu.flags.carry);
    assert!(cpu.flags.overflow);
    assert!(!cpu.flags.sign);
}

/// The add flag law on every pair of bytes: zero, carry, sign and signed
/// overflow all as the arithmetic says.
#[test]
fn add_flags_all_pairs() {
    let (mut cpu, mut bus) = fresh_machine();
    // add rr r0, r1
    bus.force_set(0x0000, 0x08);
    bus.force_set(0x0001, 0x01);
    for a in 0..=255u8 {
        for b in 0..=255u8 {
            cpu.pc = 0;
            cpu.regs[0] = a;
            cpu.regs[1] = b;
            cpu.step(&mut bus);
            let sum = a as u16 + b as u16;
            assert_eq!(cpu.regs[0], (sum % 256) as u8);
            assert_eq!(cpu.flags.zero, sum % 256 == 0);
            assert_eq!(cpu.flags.carry, sum >= 256);
            assert_eq!(cpu.flags.sign, sum % 256 >= 128);
            let signed = (a as i8 as i16) + (b as i8 as i16);
            assert_eq!(cpu.flags.overflow, signed < -128 || signed > 127);
        }
    }
}

/// Stack round trip: for every byte, push then pop hands the byte back and
/// restores the stack pointer.
#[test]
fn stack_round_trip() {
    let (mut cpu, mut bus) = fresh_machine();
    // push r r0 ; pop r r1
    for (i, b) in [0x50u8, 0x00, 0x54, 0x08].iter().enumerate() {
        bus.force_set(i as u16, *b);
    }
    for v in 0..=255u8 {
        cpu.pc = 0;
        cpu.sp = 0x23FF;
        cpu.regs[0] = v;
        cpu.regs[1] = !v;
        cpu.step(&mut bus);
        cpu.step(&mut bus);
        assert_eq!(cpu.regs[1], v);
        assert_eq!(cpu.sp, 0x23FF);
    }
}

/// Call and return: `call` runs the target and `ret` lands on the byte
/// after the call, with the stack pointer restored.
#[test]
fn call_ret_round_trip() {
    let (mut cpu, mut bus) = fresh_machine();
    // 0x0400: call i 0x0500
    for (i, b) in [0x58u8, 0x80, 0x05, 0x00].iter().enumerate() {
        bus.force_set(0x0400 + i as u16, *b);
    }
    // 0x0500: mov ri r0, 0x11 ; ret
    for (i, b) in [0x04u8, 0xC0, 0x11, 0x5C, 0x00].iter().enumerate() {
        bus.force_set(0x0500 + i as u16, *b);
    }
    cpu.pc = 0x0400;
    cpu.sp = 0x23FF;
    cpu.step(&mut bus);
    assert_eq!(cpu.pc, 0x0500);
    cpu.step(&mut bus);
    cpu.step(&mut bus);
    assert_eq!(cpu.regs[0], 0x11);
    assert_eq!(cpu.pc, 0x0404);
    assert_eq!(cpu.sp, 0x23FF);
}

/// A user-mode store to kernel data faults: the machine drops to kernel
/// mode at the trap vector, the cause cell reads 5, and the faulting
/// program counter sits on the kernel stack, high byte at the lower
/// address.
#[test]
fn user_fault_on_kernel_store() {
    let (mut cpu, mut bus) = fresh_machine();
    bus.force_set(CURRENT_TASK_ADDR, 0);
    // 0x3800: mov ri r0, 0x01 ; mov mir 0x1300, r0
    for (i, b) in [0x04u8, 0xC0, 0x01, 0x05, 0x40, 0x13, 0x00].iter().enumerate() {
        bus.force_set(0x3800 + i as u16, *b);
    }
    cpu.pc = 0x3800;
    cpu.sp = 0x23FF;
    cpu.mode = CPUMode::U;
    cpu.step(&mut bus);
    assert_eq!(cpu.regs[0], 0x01);
    assert_eq!(cpu.mode, CPUMode::U);
    cpu.step(&mut bus);
    assert_eq!(cpu.mode, CPUMode::K);
    assert_eq!(cpu.pc, 0x1000);
    assert_eq!(bus.force_get(TRAP_CAUSE_ADDR), 5);
    // The faulting pc (0x3807, past the operands of the store) was pushed
    // low byte first.
    assert_eq!(bus.force_get(0x23FF), 0x07);
    assert_eq!(bus.force_get(0x23FE), 0x38);
    assert_eq!(cpu.sp, 0x23FD);
}

/// Preemption: user code is interrupted after its instruction quota and
/// control lands at the trap vector with the timer cause.
#[test]
fn preemption_after_quota() {
    let (mut cpu, mut bus) = fresh_machine();
    bus.force_set(CURRENT_TASK_ADDR, 0);
    // User code space is zeroed: every fetch decodes as nop.
    cpu.pc = 0x3800;
    cpu.sp = 0x23FF;
    cpu.mode = CPUMode::U;
    cpu.instruction_lim = 50;
    for _ in 0..49 {
        cpu.step(&mut bus);
        assert_eq!(cpu.mode, CPUMode::U);
    }
    cpu.step(&mut bus);
    assert_eq!(cpu.mode, CPUMode::K);
    assert_eq!(cpu.pc, 0x1000);
    assert_eq!(bus.force_get(TRAP_CAUSE_ADDR), 1);
    assert_eq!(cpu.instruction_ctr, 0);
}

/// Division by zero faults with the unknown-action cause.
#[test]
fn divide_by_zero_faults() {
    let (mut cpu, mut bus) = fresh_machine();
    // div rr r0, r1 with r1 = 0
    bus.force_set(0x0000, 0x14);
    bus.force_set(0x0001, 0x01);
    cpu.regs[0] = 9;
    cpu.sp = 0x23FF;
    cpu.step(&mut bus);
    assert_eq!(cpu.mode, CPUMode::K);
    assert_eq!(cpu.pc, 0x1000);
    assert_eq!(bus.force_get(TRAP_CAUSE_ADDR), 6);
}

/// `hlt` in kernel mode stops the machine; `sys` traps with the syscall
/// cause.
#[test]
fn halt_and_syscall() {
    let (mut cpu, mut bus) = fresh_machine();
    bus.force_set(0x0000, 0xFC);
    cpu.step(&mut bus);
    assert!(cpu.halted);

    let (mut cpu2, mut bus2) = fresh_machine();
    bus2.force_set(0x0000, 0x74); // sys
    cpu2.sp = 0x23FF;
    cpu2.step(&mut bus2);
    assert_eq!(bus2.force_get(TRAP_CAUSE_ADDR), 3);
    assert_eq!(cpu2.pc, 0x1000);
}

/// Reads through the bus dispatch the device page: offset 0 is the
/// keyboard status, offset 1 pops a key, and writes to the page fault.
#[test]
fn mmio_dispatch() {
    let mut bus = fresh_bus();
    assert_eq!(bus.get(0x3400, CPUMode::K, Access::R), Ok(0));
    bus.key_inject(7);
    bus.key_inject(9); // dropped: one key pending already
    assert_eq!(bus.status(), 1);
    assert_eq!(bus.get(0x3400, CPUMode::K, Access::R), Ok(1));
    assert_eq!(bus.get(0x3401, CPUMode::K, Access::R), Ok(7));
    assert_eq!(bus.get(0x3401, CPUMode::K, Access::R), Ok(0));
    assert!(bus.get(0x3402, CPUMode::K, Access::R).is_err());
    assert!(bus.set(0x3400, 1, CPUMode::K, Access::W).is_err());
}

/// Conditional jumps: taken ones land on the operand target, untaken ones
/// step past the four-byte instruction.
#[test]
fn conditional_jumps() {
    let (mut cpu, mut bus) = fresh_machine();
    // jz i 0x0200
    for (i, b) in [0x30u8, 0x80, 0x02, 0x00].iter().enumerate() {
        bus.force_set(i as u16, *b);
    }
    cpu.flags.zero = false;
    cpu.step(&mut bus);
    assert_eq!(cpu.pc, 4);
    cpu.pc = 0;
    cpu.flags.zero = true;
    cpu.step(&mut bus);
    assert_eq!(cpu.pc, 0x0200);
}

/// `kret` pops the saved program counter and drops back to user mode: the
/// inverse of trap delivery.
#[test]
fn kret_returns_to_user() {
    let (mut cpu, mut bus) = fresh_machine();
    bus.force_set(CURRENT_TASK_ADDR, 0);
    // User code at 0x3800: sys. Kernel trap vector at 0x1000: kret.
    bus.force_set(0x3800, 0x74);
    bus.force_set(0x1000, 0x78);
    cpu.pc = 0x3800;
    cpu.sp = 0x23FF;
    cpu.mode = CPUMode::U;
    cpu.step(&mut bus);
    assert_eq!(cpu.mode, CPUMode::K);
    assert_eq!(cpu.pc, 0x1000);
    assert_eq!(bus.force_get(TRAP_CAUSE_ADDR), 3);
    cpu.step(&mut bus);
    assert_eq!(cpu.mode, CPUMode::U);
    // sys advanced one byte before trapping; kret resumes there.
    assert_eq!(cpu.pc, 0x3801);
    assert_eq!(cpu.sp, 0x23FF);
}

/// The shift family: left by one, logical right by a count, arithmetic
/// right keeping the sign, and rotation.
#[test]
fn shifts_and_rotates() {
    let (mut cpu, mut bus) = fresh_machine();
    // shl r r0 ; shr rr r1, r2 ; sar r r3 ; shrw rr r4, r5
    for (i, b) in [
        0x60u8, 0x00, // shl r r0
        0x64, 0x0A, // shr rr r1, r2
        0x68, 0x18, // sar r r3
        0x88, 0x25, // shrw rr r4, r5
    ]
        .iter()
        .enumerate()
    {
        bus.force_set(i as u16, *b);
    }
    cpu.regs[0] = 0b1100_0001;
    cpu.regs[1] = 0b1000_0000;
    cpu.regs[2] = 3;
    cpu.regs[3] = 0b1000_0010;
    cpu.regs[4] = 0b0000_0011;
    cpu.regs[5] = 1;
    cpu.step(&mut bus);
    cpu.step(&mut bus);
    cpu.step(&mut bus);
    cpu.step(&mut bus);
    assert_eq!(cpu.regs[0], 0b1000_0010);
    assert_eq!(cpu.regs[1], 0b0001_0000);
    assert_eq!(cpu.regs[3], 0b1100_0001);
    assert_eq!(cpu.regs[4], 0b1000_0001);
}

/// Storing and reloading the flags through memory round-trips them, and
/// `gsp`/`ssp` do the same for the stack pointer.
#[test]
fn flags_and_sp_through_memory() {
    let (mut cpu, mut bus) = fresh_machine();
    // gfls i 0x1300 ; sfls i 0x1310 ; gsp i 0x1320 ; ssp i 0x2200
    for (i, b) in [
        0x8Cu8, 0x80, 0x13, 0x00, // gfls i 0x1300
        0x90, 0x80, 0x13, 0x10, // sfls i 0x1310
        0x7C, 0x80, 0x13, 0x20, // gsp i 0x1320
        0x6C, 0x80, 0x22, 0x00, // ssp i 0x2200
    ]
        .iter()
        .enumerate()
    {
        bus.force_set(i as u16, *b);
    }
    cpu.flags.carry = true;
    cpu.flags.zero = true;
    cpu.sp = 0x23FF;
    bus.force_set(0x1311, 1); // sign byte for sfls
    cpu.step(&mut bus);
    assert_eq!(bus.force_get(0x1300), 1);
    assert_eq!(bus.force_get(0x1301), 0);
    assert_eq!(bus.force_get(0x1302), 1);
    assert_eq!(bus.force_get(0x1303), 0);
    cpu.step(&mut bus);
    assert!(!cpu.flags.carry && cpu.flags.sign && !cpu.flags.zero && !cpu.flags.overflow);
    cpu.step(&mut bus);
    assert_eq!(bus.force_get(0x1320), 0x23);
    assert_eq!(bus.force_get(0x1321), 0xFF);
    cpu.step(&mut bus);
    assert_eq!(cpu.sp, 0x2200);
}

/// `skip` hops over the operand's worth of bytes; an illegal instruction
/// in user mode traps before executing.
#[test]
fn skip_and_user_illegal_instruction() {
    let (mut cpu, mut bus) = fresh_machine();
    // skip i 3
    for (i, b) in [0x70u8, 0x80, 0x03].iter().enumerate() {
        bus.force_set(i as u16, *b);
    }
    cpu.step(&mut bus);
    assert_eq!(cpu.pc, 6);

    let (mut cpu2, mut bus2) = fresh_machine();
    bus2.force_set(CURRENT_TASK_ADDR, 0);
    bus2.force_set(0x3800, 0x6C); // ssp, kernel only
    cpu2.pc = 0x3800;
    cpu2.sp = 0x23FF;
    cpu2.mode = CPUMode::U;
    cpu2.step(&mut bus2);
    assert_eq!(cpu2.mode, CPUMode::K);
    assert_eq!(bus2.force_get(TRAP_CAUSE_ADDR), 4);
}
