use dnavm::bits::{get_bits_lsb, get_bits_msb};
use dnavm::bus::{Bus, MemRange};
use dnavm::cpu::Cpu;
use dnavm::device::{Keyboard, Mouse};
use dnavm::memory::Mem;
use dnavm::vc::VideoController;
use dnavm::vm::Vm;

/// The keyboard holds at most one pending key and pops in order.
#[test]
fn keyboard_queue() {
    let mut kb = Keyboard::new();
    assert_eq!(kb.status(), 0);
    assert_eq!(kb.pop_key(), 0);
    kb.inject_key(26);
    assert_eq!(kb.status(), 1);
    kb.inject_key(1); // dropped
    assert_eq!(kb.pop_key(), 26);
    assert_eq!(kb.status(), 0);
}

/// Bit ranges from either end of a 16-bit word.
#[test]
fn bit_ranges() {
    let w: u16 = 0b1011_0010_0100_0110;
    assert_eq!(get_bits_msb(w, 0, 5), 0b101100);
    assert_eq!(get_bits_msb(w, 6, 9), 0b1001);
    assert_eq!(get_bits_msb(w, 10, 15), 0b000110);
    assert_eq!(get_bits_lsb(w, 0, 2), 0b110);
    assert_eq!(get_bits_lsb(w, 3, 5), 0b000);
    assert_eq!(get_bits_lsb(w, 0, 15), w);
    assert_eq!(get_bits_msb(w, 0, 7), 0xB2);
    assert_eq!(get_bits_msb(w, 8, 15), 0x46);
}

/// The standalone memory reads back what was set.
#[test]
fn mem_set_get() {
    let mut m = Mem::new();
    assert_eq!(m.get(10), 0);
    m.set(10, 0xAB);
    assert_eq!(m.get(10), 0xAB);
    assert_eq!(m.get_range(9, 12), &[0, 0xAB, 0]);
}

/// The video controller copies one framebuffer of bytes out of the bus.
#[test]
fn framebuffer_refresh() {
    let mut vc = VideoController::new(16, 8, 0x2400);
    assert_eq!(vc.framebuffer.len(), 16);
    let data: Vec<u8> = (0..32u8).collect();
    vc.update_framebuffer(&data);
    assert_eq!(vc.framebuffer, (0..16u8).collect::<Vec<u8>>());
}

/// The whole machine: a halt program runs to the halt and the framebuffer
/// mirrors the video memory.
#[test]
fn vm_runs_and_blits() {
    let ranges = vec![
        MemRange::Bootloader(0x0000, 0x0400),
        MemRange::KernelTraps(0x1000, 0x1200),
        MemRange::KernelData(0x1200, 0x1800),
        MemRange::Vram(0x2400, 0x3400),
        MemRange::Mmio(0x3400, 0x3800),
    ];
    let mut bus = Bus::new(Mouse::new(), Keyboard::new(), ranges);
    // nop ; nop is all zeros already; put hlt at 0x0004.
    bus.force_set(0x0004, 0xFC);
    bus.force_set(0x2400, 0x5A);
    let cpu = Cpu::new(0x1000);
    let vc = VideoController::new(128, 128, 0x2400);
    let mut vm = Vm::new(bus, vc, cpu);
    vm.step_many(100);
    assert!(vm.cpu.halted);
    assert_eq!(vm.video.framebuffer[0], 0x5A);
}
