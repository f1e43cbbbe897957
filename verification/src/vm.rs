//! The machine as a whole: a bus, a processor and a video controller,
//! stepped together.

use vstd::prelude::*;
use crate::bus::{Bus, BusView};
use crate::cpu::{Cpu, CpuView, step_s};
use crate::vc::VideoController;

verus! {

/// One machine step as seen from outside: the processor steps unless it is
/// halted, and the framebuffer is refreshed from the video memory window.
pub open spec fn vm_step_s(c: CpuView, b: BusView, fb: Seq<u8>, base: u16) -> (
    CpuView,
    BusView,
    Seq<u8>,
) {
    if c.halted {
        (c, b, fb)
    } else {
        let (c2, b2) = step_s(c, b);
        (c2, b2, b2.ram.subrange(base as int, base + fb.len()))
    }
}

/// `n` machine steps.
pub open spec fn vm_run_s(c: CpuView, b: BusView, fb: Seq<u8>, base: u16, n: nat) -> (
    CpuView,
    BusView,
    Seq<u8>,
)
    decreases n,
{
    if n == 0 {
        (c, b, fb)
    } else {
        let (c2, b2, fb2) = vm_step_s(c, b, fb, base);
        vm_run_s(c2, b2, fb2, base, (n - 1) as nat)
    }
}

/// A halted machine stays exactly as it is.
proof fn lemma_vm_run_halted(c: CpuView, b: BusView, fb: Seq<u8>, base: u16, n: nat)
    requires
        c.halted,
    ensures
        vm_run_s(c, b, fb, base, n) == (c, b, fb),
    decreases n,
{
    if n > 0 {
        lemma_vm_run_halted(c, b, fb, base, (n - 1) as nat);
    }
}

pub struct Vm {
    pub mem: Bus,
    pub cpu: Cpu,
    pub video: VideoController,
}

impl Vm {
    /// The video memory window must lie inside the address space.
    pub open spec fn wf(&self) -> bool {
        self.video.vram_base + self.video.framebuffer@.len() <= 65535
    }

    pub fn new(mem: Bus, video: VideoController, cpu: Cpu) -> (vm: Vm)
        ensures
            vm.mem == mem,
            vm.cpu == cpu,
            vm.video == video,
    {
        Vm { mem, cpu, video }
    }

    /// One step: the processor, then the framebuffer refresh from the bus.
    pub fn step(&mut self)
        requires
            old(self).wf(),
        ensures
            final(self).wf(),
            ({
                let (c, b, fb) = vm_step_s(
                    old(self).cpu@,
                    old(self).mem@,
                    old(self).video.framebuffer@,
                    old(self).video.vram_base,
                );
                final(self).cpu@ == c && final(self).mem@ == b && final(self).video.framebuffer@
                    == fb
            }),
            final(self).video.vram_base == old(self).video.vram_base,
            final(self).video.width == old(self).video.width,
            final(self).video.height == old(self).video.height,
    {
        if !self.cpu.halted {
            self.cpu.step(&mut self.mem);
            proof {
                self.mem.lemma_ram_len();
            }
            let base = self.video.vram_base;
            let len = self.video.framebuffer.len();
            let window = self.mem.get_range(base, base + (len as u16));
            self.video.update_framebuffer(window);
        }
    }

    /// Runs `n` steps, stopping early once the processor halts.
    pub fn step_many(&mut self, n: i32)
        requires
            old(self).wf(),
        ensures
            final(self).wf(),
            ({
                let (c, b, fb) = vm_run_s(
                    old(self).cpu@,
                    old(self).mem@,
                    old(self).video.framebuffer@,
                    old(self).video.vram_base,
                    if n >= 0 {
                        n as nat
                    } else {
                        0nat
                    },
                );
                final(self).cpu@ == c && final(self).mem@ == b && final(self).video.framebuffer@
                    == fb
            }),
            final(self).video.vram_base == old(self).video.vram_base,
    {
        let ghost n0: nat = if n >= 0 {
            n as nat
        } else {
            0nat
        };
        let mut i: i32 = 0;
        if n < 0 {
            return;
        }
        while i < n
            invariant
                0 <= i <= n,
                self.wf(),
                self.video.vram_base == old(self).video.vram_base,
                self.video.width == old(self).video.width,
                self.video.height == old(self).video.height,
                n0 == n,
                vm_run_s(
                    old(self).cpu@,
                    old(self).mem@,
                    old(self).video.framebuffer@,
                    old(self).video.vram_base,
                    n0,
                ) == vm_run_s(
                    self.cpu@,
                    self.mem@,
                    self.video.framebuffer@,
                    self.video.vram_base,
                    (n0 - i) as nat,
                ),
            decreases n - i,
        {
            self.step();
            i = i + 1;
            if self.cpu.halted {
                proof {
                    lemma_vm_run_halted(
                        self.cpu@,
                        self.mem@,
                        self.video.framebuffer@,
                        self.video.vram_base,
                        (n0 - i) as nat,
                    );
                }
                return;
            }
        }
    }
}

} // verus!
