//! The memory bus: a flat 64 KiB byte array, the devices, and the
//! protection unit that checks every access against a list of typed
//! regions.

use vstd::prelude::*;
use crate::cpu::{Access, CPUExit, CPUMode, Fault};
use crate::device::{Keyboard, Mouse};

verus! {

/// The address of the byte in kernel data that names the currently
/// scheduled task; per-task regions are checked against it in user mode.
pub const CURRENT_TASK_ADDR: u16 = 0x12C8;

/// A typed address range `[start, end)`. The user variants carry the id of
/// the task that owns them.
#[derive(PartialEq, Eq, Structural, Clone, Copy, Debug)]
pub enum MemRange {
    Bootloader(u16, u16),
    KernelCore(u16, u16),
    KernelTraps(u16, u16),
    KernelData(u16, u16),
    KernelHeap(u16, u16),
    KernelStack(u16, u16),
    Vram(u16, u16),
    Mmio(u16, u16),
    UserCode(u16, u16, u8),
    UserData(u16, u16, u8),
    UserHeap(u16, u16, u8),
    UserStack(u16, u16, u8),
}

/// The bounds of a region, low inclusive, high exclusive.
pub open spec fn range_bounds(r: MemRange) -> (u16, u16) {
    match r {
        MemRange::Bootloader(a, b) => (a, b),
        MemRange::KernelCore(a, b) => (a, b),
        MemRange::KernelTraps(a, b) => (a, b),
        MemRange::KernelData(a, b) => (a, b),
        MemRange::KernelHeap(a, b) => (a, b),
        MemRange::KernelStack(a, b) => (a, b),
        MemRange::Vram(a, b) => (a, b),
        MemRange::Mmio(a, b) => (a, b),
        MemRange::UserCode(a, b, _) => (a, b),
        MemRange::UserData(a, b, _) => (a, b),
        MemRange::UserHeap(a, b, _) => (a, b),
        MemRange::UserStack(a, b, _) => (a, b),
    }
}

pub open spec fn range_contains(r: MemRange, addr: u16) -> bool {
    range_bounds(r).0 <= addr < range_bounds(r).1
}

/// The policy table: whether a region of this kind may be touched with the
/// given privilege and intent, when `current_task` is scheduled.
pub open spec fn range_allows(
    r: MemRange,
    mode: CPUMode,
    access: Access,
    current_task: u8,
) -> bool {
    match r {
        MemRange::Bootloader(..) => mode == CPUMode::K && (access == Access::X || access
            == Access::R),
        MemRange::KernelCore(..) => mode == CPUMode::K && (access == Access::X || access
            == Access::R),
        MemRange::KernelTraps(..) => mode == CPUMode::K && (access == Access::X || access
            == Access::R),
        MemRange::KernelData(..) => mode == CPUMode::K && (access == Access::R || access
            == Access::W),
        MemRange::KernelHeap(..) => mode == CPUMode::K && (access == Access::R || access
            == Access::W),
        MemRange::KernelStack(..) => mode == CPUMode::K && (access == Access::R || access
            == Access::W),
        MemRange::Vram(..) => mode == CPUMode::K && (access == Access::R || access == Access::W),
        MemRange::Mmio(..) => mode == CPUMode::K && (access == Access::R || access == Access::W),
        MemRange::UserCode(_, _, t) => (mode == CPUMode::K && (access == Access::X || access
            == Access::R)) || (mode == CPUMode::U && (access == Access::X || access == Access::R)
            && t == current_task),
        MemRange::UserData(_, _, t) => (mode == CPUMode::K && (access == Access::R || access
            == Access::W)) || (mode == CPUMode::U && (access == Access::R || access == Access::W)
            && t == current_task),
        MemRange::UserHeap(_, _, t) => (mode == CPUMode::K && (access == Access::R || access
            == Access::W)) || (mode == CPUMode::U && (access == Access::R || access == Access::W)
            && t == current_task),
        MemRange::UserStack(_, _, t) => (mode == CPUMode::K && (access == Access::R || access
            == Access::W)) || (mode == CPUMode::U && (access == Access::R || access == Access::W)
            && t == current_task),
    }
}

impl MemRange {
    pub fn contains(&self, addr: u16) -> (r: bool)
        ensures
            r == range_contains(*self, addr),
    {
        let (a, b) = self.bounds();
        a <= addr && addr < b
    }

    /// The bounds of the region as executable values.
    pub fn bounds(&self) -> (r: (u16, u16))
        ensures
            r == range_bounds(*self),
    {
        match *self {
            MemRange::Bootloader(a, b) => (a, b),
            MemRange::KernelCore(a, b) => (a, b),
            MemRange::KernelTraps(a, b) => (a, b),
            MemRange::KernelData(a, b) => (a, b),
            MemRange::KernelHeap(a, b) => (a, b),
            MemRange::KernelStack(a, b) => (a, b),
            MemRange::Vram(a, b) => (a, b),
            MemRange::Mmio(a, b) => (a, b),
            MemRange::UserCode(a, b, _) => (a, b),
            MemRange::UserData(a, b, _) => (a, b),
            MemRange::UserHeap(a, b, _) => (a, b),
            MemRange::UserStack(a, b, _) => (a, b),
        }
    }

    pub fn allows(&self, mode: CPUMode, access: Access, current_task: u8) -> (r: bool)
        ensures
            r == range_allows(*self, mode, access, current_task),
    {
        let k = matches!(mode, CPUMode::K);
        let u = matches!(mode, CPUMode::U);
        let rx = matches!(access, Access::R | Access::X);
        let rw = matches!(access, Access::R | Access::W);
        match *self {
            MemRange::Bootloader(..) => k && rx,
            MemRange::KernelCore(..) => k && rx,
            MemRange::KernelTraps(..) => k && rx,
            MemRange::KernelData(..) => k && rw,
            MemRange::KernelHeap(..) => k && rw,
            MemRange::KernelStack(..) => k && rw,
            MemRange::Vram(..) => k && rw,
            MemRange::Mmio(..) => k && rw,
            MemRange::UserCode(_, _, t) => (k && rx) || (u && rx && t == current_task),
            MemRange::UserData(_, _, t) => (k && rw) || (u && rw && t == current_task),
            MemRange::UserHeap(_, _, t) => (k && rw) || (u && rw && t == current_task),
            MemRange::UserStack(_, _, t) => (k && rw) || (u && rw && t == current_task),
        }
    }

    pub fn check_access(&self, mode: CPUMode, access: Access, task_index: u8) -> (r: Result<
        (),
        CPUExit,
    >)
        ensures
            r == (if range_allows(*self, mode, access, task_index) {
                Result::<(), CPUExit>::Ok(())
            } else {
                Result::<(), CPUExit>::Err(CPUExit::Fault(Fault::IllegalMemAccess))
            }),
    {
        if self.allows(mode, access, task_index) {
            Ok(())
        } else {
            Err(CPUExit::Fault(Fault::IllegalMemAccess))
        }
    }
}

/// The first region in the list that contains `addr`, if any: the region
/// whose policy decides the access.
pub open spec fn first_region(rs: Seq<MemRange>, addr: u16) -> Option<MemRange>
    decreases rs.len(),
{
    if rs.len() == 0 {
        None
    } else if range_contains(rs[0], addr) {
        Some(rs[0])
    } else {
        first_region(rs.skip(1), addr)
    }
}

/// The abstract state of the bus.
#[verifier::ext_equal]
pub ghost struct BusView {
    pub ram: Seq<u8>,
    pub keys: Seq<u8>,
    pub ranges: Seq<MemRange>,
    pub mmio_start: u16,
    pub mmio_end: u16,
    pub mouse_x: u8,
    pub mouse_y: u8,
}

/// The task id that per-task regions are checked against: the byte stored
/// at the current-task cell.
pub open spec fn current_task(bv: BusView) -> u8 {
    bv.ram[CURRENT_TASK_ADDR as int]
}

/// Whether the protection unit admits this access: some region contains the
/// address and its policy row matches.
pub open spec fn allowed(bv: BusView, addr: u16, mode: CPUMode, access: Access) -> bool {
    match first_region(bv.ranges, addr) {
        Some(r) => range_allows(r, mode, access, current_task(bv)),
        None => false,
    }
}

pub open spec fn check_result(bv: BusView, addr: u16, mode: CPUMode, access: Access) -> Result<
    (),
    CPUExit,
> {
    if allowed(bv, addr, mode, access) {
        Ok(())
    } else {
        Err(CPUExit::Fault(Fault::IllegalMemAccess))
    }
}

pub open spec fn in_mmio(bv: BusView, addr: u16) -> bool {
    bv.mmio_start <= addr < bv.mmio_end
}

/// What a read of the memory-mapped device page yields: offset 0 is the
/// keyboard status, offset 1 pops a keycode, anything else faults.
pub open spec fn mmio_read_result(bv: BusView, addr: u16) -> Result<u8, CPUExit> {
    if addr == bv.mmio_start {
        Ok(if bv.keys.len() > 0 { 1u8 } else { 0u8 })
    } else if addr == bv.mmio_start + 1 {
        Ok(if bv.keys.len() > 0 { bv.keys[0] } else { 0u8 })
    } else {
        Err(CPUExit::Fault(Fault::IllegalMemAccess))
    }
}

/// The key queue after a read of the device page.
pub open spec fn mmio_keys_after(bv: BusView, addr: u16) -> Seq<u8> {
    if addr == bv.mmio_start + 1 && bv.keys.len() > 0 {
        bv.keys.skip(1)
    } else {
        bv.keys
    }
}

/// What a checked read returns: the access check first, then the device
/// page dispatch, otherwise the byte of RAM.
pub open spec fn read_result(bv: BusView, addr: u16, mode: CPUMode, access: Access) -> Result<
    u8,
    CPUExit,
> {
    if !allowed(bv, addr, mode, access) {
        Err(CPUExit::Fault(Fault::IllegalMemAccess))
    } else if in_mmio(bv, addr) {
        mmio_read_result(bv, addr)
    } else {
        Ok(bv.ram[addr as int])
    }
}

/// The bus state after a checked read: only a keycode pop changes it.
pub open spec fn view_after_read(bv: BusView, addr: u16, mode: CPUMode, access: Access) -> BusView {
    if allowed(bv, addr, mode, access) && in_mmio(bv, addr) {
        BusView { keys: mmio_keys_after(bv, addr), ..bv }
    } else {
        bv
    }
}

/// Whether a checked write goes through: the access check with the given
/// intent, and the device page takes no writes.
pub open spec fn write_result(bv: BusView, addr: u16, mode: CPUMode, access: Access) -> Result<
    (),
    CPUExit,
> {
    if !allowed(bv, addr, mode, access) {
        Err(CPUExit::Fault(Fault::IllegalMemAccess))
    } else if in_mmio(bv, addr) {
        Err(CPUExit::Fault(Fault::IllegalMemAccess))
    } else {
        Ok(())
    }
}

/// The bus state after a checked write.
pub open spec fn view_after_write(
    bv: BusView,
    addr: u16,
    val: u8,
    mode: CPUMode,
    access: Access,
) -> BusView {
    if write_result(bv, addr, mode, access) is Ok {
        BusView { ram: bv.ram.update(addr as int, val), ..bv }
    } else {
        bv
    }
}

/// Whether a byte may be written with the given privilege, and its current
/// value: the check a read-modify-write destination gets before an
/// instruction stores through it. The device page takes no writes.
pub open spec fn writable_result(bv: BusView, addr: u16, mode: CPUMode) -> Result<u8, CPUExit> {
    if !allowed(bv, addr, mode, Access::W) {
        Err(CPUExit::Fault(Fault::IllegalMemAccess))
    } else if in_mmio(bv, addr) {
        Err(CPUExit::Fault(Fault::IllegalMemAccess))
    } else {
        Ok(bv.ram[addr as int])
    }
}

/// The memory-mapped device page of a region list: the bounds of the first
/// `Mmio` region, or the empty range when there is none.
pub open spec fn mmio_bounds(rs: Seq<MemRange>) -> (u16, u16)
    decreases rs.len(),
{
    if rs.len() == 0 {
        (0u16, 0u16)
    } else if rs[0] is Mmio {
        range_bounds(rs[0])
    } else {
        mmio_bounds(rs.skip(1))
    }
}

/// No two distinct regions of the list claim the same address: the data
/// model's invariant on region lists.
pub open spec fn ranges_disjoint(rs: Seq<MemRange>) -> bool {
    forall|i: int, j: int, a: u16|
        0 <= i < rs.len() && 0 <= j < rs.len() && i != j && #[trigger] range_contains(rs[i], a)
            ==> !#[trigger] range_contains(rs[j], a)
}

/// The memory bus. It owns the RAM, the devices and the region list.
pub struct Bus {
    ram: [u8; 65536],
    mouse: Mouse,
    keyboard: Keyboard,
    ranges: Vec<MemRange>,
    mmio_start: u16,
    mmio_end: u16,
}

impl View for Bus {
    type V = BusView;

    closed spec fn view(&self) -> BusView {
        BusView {
            ram: self.ram@,
            keys: self.keyboard@,
            ranges: self.ranges@,
            mmio_start: self.mmio_start,
            mmio_end: self.mmio_end,
            mouse_x: self.mouse.x,
            mouse_y: self.mouse.y,
        }
    }
}

impl Bus {
    /// The RAM of any bus covers the full 16-bit address space.
    pub proof fn lemma_ram_len(&self)
        ensures
            self@.ram.len() == 65536,
    {
    }

    /// A bus with zeroed RAM guarded by the given region list. The device
    /// page is the first `Mmio` region of the list.
    pub fn new(mouse: Mouse, keyboard: Keyboard, ranges: Vec<MemRange>) -> (bus: Bus)
        requires
            ranges_disjoint(ranges@),
        ensures
            ranges_disjoint(bus@.ranges),
            bus@.ram == Seq::new(65536nat, |i: int| 0u8),
            bus@.keys == keyboard@,
            bus@.ranges == ranges@,
            (bus@.mmio_start, bus@.mmio_end) == mmio_bounds(ranges@),
            bus@.mouse_x == mouse.x,
            bus@.mouse_y == mouse.y,
    {
        let mut mmio_start: u16 = 0;
        let mut mmio_end: u16 = 0;
        let mut found: bool = false;
        let mut i: usize = 0;
        let n = ranges.len();
        proof {
            assert(ranges@.skip(0) =~= ranges@);
        }
        while i < n
            invariant
                i <= n,
                n == ranges@.len(),
                found ==> mmio_bounds(ranges@) == (mmio_start, mmio_end),
                !found ==> mmio_bounds(ranges@) == mmio_bounds(ranges@.skip(i as int))
                    && mmio_start == 0 && mmio_end == 0,
            decreases n - i,
        {
            proof {
                assert(ranges@.skip(i as int)[0] == ranges@[i as int]);
                assert(ranges@.skip(i as int).skip(1) =~= ranges@.skip(i + 1));
            }
            if !found {
                if matches!(ranges[i], MemRange::Mmio(..)) {
                    let (a, b) = ranges[i].bounds();
                    mmio_start = a;
                    mmio_end = b;
                    found = true;
                }
            }
            i = i + 1;
        }
        let bus = Bus { ram: [0u8; 65536], mouse, keyboard, ranges, mmio_start, mmio_end };
        proof {
            assert(bus@.ram =~= Seq::new(65536nat, |j: int| 0u8));
        }
        bus
    }

    /// The highest valid address.
    pub fn get_size(&self) -> (s: u16)
        ensures
            s == 65535,
    {
        65535
    }

    /// Resolves the address to its region and consults the policy table,
    /// reading the current task id from the current-task cell.
    pub fn check_access(&self, address: u16, mode: CPUMode, access: Access) -> (r: Result<
        (),
        CPUExit,
    >)
        ensures
            r == check_result(self@, address, mode, access),
            ranges_disjoint(self@.ranges) ==> (r is Ok <==> exists|i: int|
                0 <= i < self@.ranges.len() && range_contains(#[trigger] self@.ranges[i], address)
                    && range_allows(self@.ranges[i], mode, access, current_task(self@))),
    {
        proof {
            if ranges_disjoint(self@.ranges) {
                lemma_access_policy(self@, address, mode, access);
            }
        }
        let task = self.ram[CURRENT_TASK_ADDR as usize];
        let n = self.ranges.len();
        let mut i: usize = 0;
        proof {
            assert(self@.ranges.skip(0) =~= self@.ranges);
        }
        while i < n
            invariant
                i <= n,
                n == self.ranges@.len(),
                task == current_task(self@),
                first_region(self@.ranges, address) == first_region(
                    self@.ranges.skip(i as int),
                    address,
                ),
            decreases n - i,
        {
            proof {
                assert(self@.ranges.skip(i as int)[0] == self@.ranges[i as int]);
                assert(self@.ranges.skip(i as int).skip(1) =~= self@.ranges.skip(i + 1));
            }
            let range = &self.ranges[i];
            if range.contains(address) {
                return range.check_access(mode, access, task);
            }
            i = i + 1;
        }
        Err(CPUExit::Fault(Fault::IllegalMemAccess))
    }

    /// A checked read: the device page is dispatched by offset, everything
    /// else comes from RAM.
    pub fn get(&mut self, address: u16, mode: CPUMode, access: Access) -> (r: Result<u8, CPUExit>)
        ensures
            r == read_result(old(self)@, address, mode, access),
            final(self)@ == view_after_read(old(self)@, address, mode, access),
    {
        match self.check_access(address, mode, access) {
            Ok(()) => (),
            Err(e) => {
                return Err(e);
            },
        }
        if self.mmio_start <= address && address < self.mmio_end {
            self.mmio_get(address)
        } else {
            Ok(self.ram[address as usize])
        }
    }

    /// An unchecked read of the device page.
    pub fn mmio_get(&mut self, address: u16) -> (r: Result<u8, CPUExit>)
        ensures
            r == mmio_read_result(old(self)@, address),
            final(self)@ == (BusView { keys: mmio_keys_after(old(self)@, address), ..old(self)@ }),
    {
        let keyboard_status: u16 = self.mmio_start;
        if address == keyboard_status {
            Ok(self.keyboard.status())
        } else if keyboard_status < 65535 && address == keyboard_status + 1 {
            Ok(self.keyboard.pop_key())
        } else {
            Err(CPUExit::Fault(Fault::IllegalMemAccess))
        }
    }

    /// An unchecked write, for the loader and for trap bookkeeping.
    pub fn force_set(&mut self, dest: u16, src: u8)
        ensures
            final(self)@ == (BusView { ram: old(self)@.ram.update(dest as int, src), ..old(self)@ }),
    {
        self.ram[dest as usize] = src;
    }

    /// An unchecked read.
    pub fn force_get(&self, dest: u16) -> (b: u8)
        ensures
            b == self@.ram[dest as int],
    {
        self.ram[dest as usize]
    }

    /// A checked write. The device page takes no writes.
    pub fn set(&mut self, dest: u16, src: u8, mode: CPUMode, access: Access) -> (r: Result<
        (),
        CPUExit,
    >)
        ensures
            r == write_result(old(self)@, dest, mode, access),
            final(self)@ == view_after_write(old(self)@, dest, src, mode, access),
    {
        match self.check_access(dest, mode, access) {
            Ok(()) => (),
            Err(e) => {
                return Err(e);
            },
        }
        if self.mmio_start <= dest && dest < self.mmio_end {
            return Err(CPUExit::Fault(Fault::IllegalMemAccess));
        }
        self.ram[dest as usize] = src;
        Ok(())
    }

    /// Checks that a byte may be written with the given privilege and
    /// returns its current value; the write itself then goes through
    /// `force_set`. The device page takes no writes.
    pub fn get_writable(&self, address: u16, mode: CPUMode) -> (r: Result<u8, CPUExit>)
        ensures
            r == writable_result(self@, address, mode),
    {
        match self.check_access(address, mode, Access::W) {
            Ok(()) => (),
            Err(e) => {
                return Err(e);
            },
        }
        if self.mmio_start <= address && address < self.mmio_end {
            return Err(CPUExit::Fault(Fault::IllegalMemAccess));
        }
        Ok(self.ram[address as usize])
    }

    /// An immutable window over RAM, for the video controller.
    pub fn get_range(&self, a: u16, b: u16) -> (r: &[u8])
        requires
            a <= b,
        ensures
            r@ == self@.ram.subrange(a as int, b as int),
    {
        let s: &[u8] = self.ram.as_slice();
        vstd::slice::slice_subrange(s, a as usize, b as usize)
    }

    /// Hands a keycode to the keyboard; dropped when one is pending.
    pub fn key_inject(&mut self, key: u8)
        ensures
            final(self)@ == (BusView {
                keys: if old(self)@.keys.len() == 0 {
                    seq![key]
                } else {
                    old(self)@.keys
                },
                ..old(self)@
            }),
    {
        self.keyboard.inject_key(key);
    }

    /// The keyboard status byte: 1 when a key is pending.
    pub fn status(&self) -> (s: u8)
        ensures
            s == (if self@.keys.len() > 0 { 1u8 } else { 0u8 }),
    {
        self.keyboard.status()
    }
}

proof fn lemma_first_region_finds(rs: Seq<MemRange>, addr: u16)
    ensures
        first_region(rs, addr) matches Some(r) ==> exists|i: int|
            0 <= i < rs.len() && rs[i] == r && range_contains(r, addr),
        first_region(rs, addr) is None ==> forall|i: int|
            0 <= i < rs.len() ==> !range_contains(#[trigger] rs[i], addr),
    decreases rs.len(),
{
    if rs.len() > 0 {
        if !range_contains(rs[0], addr) {
            lemma_first_region_finds(rs.skip(1), addr);
            if first_region(rs, addr) is Some {
                let r = first_region(rs, addr)->Some_0;
                let i = choose|i: int|
                    0 <= i < rs.skip(1).len() && rs.skip(1)[i] == r && range_contains(r, addr);
                assert(rs[i + 1] == r && range_contains(r, addr));
            } else {
                assert forall|i: int| 0 <= i < rs.len() implies !range_contains(
                    #[trigger] rs[i],
                    addr,
                ) by {
                    if i > 0 {
                        assert(rs.skip(1)[i - 1] == rs[i]);
                    }
                }
            }
        }
    }
}

/// The law of the protection unit: over a region list in which no two
/// regions overlap, an access is permitted exactly when some region
/// contains the address and the policy row for (region kind, mode, intent,
/// current task) matches.
pub proof fn lemma_access_policy(bv: BusView, addr: u16, mode: CPUMode, access: Access)
    requires
        ranges_disjoint(bv.ranges),
    ensures
        allowed(bv, addr, mode, access) <==> exists|i: int|
            0 <= i < bv.ranges.len() && range_contains(#[trigger] bv.ranges[i], addr)
                && range_allows(bv.ranges[i], mode, access, current_task(bv)),
{
    lemma_first_region_finds(bv.ranges, addr);
    if allowed(bv, addr, mode, access) {
        let r = first_region(bv.ranges, addr)->Some_0;
        let i = choose|i: int|
            0 <= i < bv.ranges.len() && bv.ranges[i] == r && range_contains(r, addr);
        assert(range_contains(bv.ranges[i], addr) && range_allows(
            bv.ranges[i],
            mode,
            access,
            current_task(bv),
        ));
    } else {
        if exists|i: int|
            0 <= i < bv.ranges.len() && range_contains(#[trigger] bv.ranges[i], addr)
                && range_allows(bv.ranges[i], mode, access, current_task(bv)) {
            let i = choose|i: int|
                0 <= i < bv.ranges.len() && range_contains(#[trigger] bv.ranges[i], addr)
                    && range_allows(bv.ranges[i], mode, access, current_task(bv));
            // Some region contains the address, so the scan finds one.
            assert(first_region(bv.ranges, addr) is Some);
            let r = first_region(bv.ranges, addr)->Some_0;
            let j = choose|j: int|
                0 <= j < bv.ranges.len() && bv.ranges[j] == r && range_contains(r, addr);
            // Disjointness: the region found is the region chosen.
            assert(i == j);
        }
    }
}

} // verus!
