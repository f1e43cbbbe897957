//! The video controller: pulls a window of video memory out of the bus
//! into a local framebuffer that the host presents.

use vstd::prelude::*;

verus! {

pub struct VideoController {
    pub width: usize,
    pub height: usize,
    pub framebuffer: Vec<u8>,
    pub vram_base: u16,
}

impl VideoController {
    /// A controller for a `width` x `height` one-bit-per-pixel display whose
    /// video memory starts at `vram_base`: the framebuffer holds one byte
    /// for every eight pixels.
    pub fn new(width: usize, height: usize, vram_base: u16) -> (vc: VideoController)
        requires
            width * height <= usize::MAX,
        ensures
            vc.width == width,
            vc.height == height,
            vc.vram_base == vram_base,
            vc.framebuffer@ == Seq::new((width * height / 8) as nat, |i: int| 0u8),
    {
        proof {
            assert(width * height / 8 >= 0) by (nonlinear_arith);
        }
        let mut framebuffer: Vec<u8> = Vec::new();
        let n = width * height / 8;
        let mut i: usize = 0;
        while i < n
            invariant
                i <= n,
                n == width * height / 8,
                framebuffer@ =~= Seq::new(i as nat, |j: int| 0u8),
            decreases n - i,
        {
            framebuffer.push(0);
            i = i + 1;
        }
        proof {
            assert(framebuffer@ =~= Seq::new(n as nat, |j: int| 0u8));
        }
        VideoController { width, height, framebuffer, vram_base }
    }

    /// Copies one framebuffer's worth of bytes out of `mem`.
    pub fn update_framebuffer(&mut self, mem: &[u8])
        requires
            mem@.len() >= old(self).framebuffer@.len(),
        ensures
            final(self).framebuffer@ == mem@.subrange(0, old(self).framebuffer@.len() as int),
            final(self).width == old(self).width,
            final(self).height == old(self).height,
            final(self).vram_base == old(self).vram_base,
    {
        let n = self.framebuffer.len();
        let mut i: usize = 0;
        while i < n
            invariant
                i <= n,
                n == self.framebuffer@.len(),
                mem@.len() >= n,
                self.framebuffer@.subrange(0, i as int) =~= mem@.subrange(0, i as int),
                self.width == old(self).width,
                self.height == old(self).height,
                self.vram_base == old(self).vram_base,
            decreases n - i,
        {
            let b = mem[i];
            self.framebuffer.set(i, b);
            proof {
                assert(self.framebuffer@.subrange(0, i + 1) =~= mem@.subrange(0, i + 1));
            }
            i = i + 1;
        }
        proof {
            assert(self.framebuffer@ =~= self.framebuffer@.subrange(0, n as int));
        }
    }
}

} // verus!
