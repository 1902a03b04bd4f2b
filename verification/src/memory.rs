//! Addresses, frames and pages, page-table entries, and the page allocator:
//! a bump allocator that hands out whole pages and never takes one back.

use crate::error::KernelError;
use vstd::prelude::*;

verus! {

/// The size of a page and of a frame.
pub const PAGE_SIZE: u64 = 4096;

/// Where the page allocator starts.
pub const PAGE_POOL_BASE: u64 = 0x60000000;

/// The start of the page or frame that holds `addr`.
pub open spec fn page_start(addr: u64) -> u64 {
    addr & !0xfffu64
}

/// Kinds of physical memory.
#[derive(Debug, Clone, Copy, PartialEq, Eq, Structural)]
pub enum MemoryRegionType {
    Usable,
    Reserved,
}

/// A stretch of physical memory as the boot environment reports it.
#[derive(Debug, Clone, Copy)]
pub struct MemoryRegion {
    pub start: u64,
    pub size: u64,
    pub region_type: MemoryRegionType,
}

impl MemoryRegion {
    /// How many frames the region offers: one for every page-sized step
    /// from its start that begins before its end, if it is usable.
    pub open spec fn frame_count(self) -> nat {
        if self.region_type == MemoryRegionType::Usable {
            ((self.size + PAGE_SIZE - 1) / (PAGE_SIZE as int)) as nat
        } else {
            0
        }
    }

    /// The region ends within the address space.
    pub open spec fn in_range(self) -> bool {
        self.start + self.size <= u64::MAX
    }
}

/// A physical address.
#[derive(Debug, Clone, Copy, PartialEq, Eq, Structural)]
pub struct PhysAddr(pub u64);

impl PhysAddr {
    pub fn new(addr: u64) -> (pa: PhysAddr)
        ensures
            pa.0 == addr,
    {
        PhysAddr(addr)
    }

    pub fn as_u64(self) -> (addr: u64)
        ensures
            addr == self.0,
    {
        self.0
    }
}

/// A virtual address.
#[derive(Debug, Clone, Copy, PartialEq, Eq, Structural)]
pub struct VirtAddr(pub u64);

impl VirtAddr {
    pub fn new(addr: u64) -> (va: VirtAddr)
        ensures
            va.0 == addr,
    {
        VirtAddr(addr)
    }

    pub fn as_u64(self) -> (addr: u64)
        ensures
            addr == self.0,
    {
        self.0
    }
}

/// A frame of physical memory, named by its first address.
#[derive(Debug, Clone, Copy, PartialEq, Eq)]
pub struct PhysFrame {
    start_address: PhysAddr,
}

impl View for PhysFrame {
    type V = u64;

    /// The first address of the frame.
    closed spec fn view(&self) -> u64 {
        self.start_address.0
    }
}

impl PhysFrame {
    /// The frame that holds `address`.
    pub fn containing_address(address: PhysAddr) -> (frame: PhysFrame)
        ensures
            frame@ == page_start(address.0),
    {
        PhysFrame { start_address: PhysAddr::new(address.as_u64() & !0xfff) }
    }

    /// The first address of the frame.
    pub fn start_address(self) -> (addr: PhysAddr)
        ensures
            addr.0 == self@,
    {
        self.start_address
    }
}

/// A page of virtual memory, named by its first address.
#[derive(Debug, Clone, Copy, PartialEq, Eq)]
pub struct Page {
    start_address: VirtAddr,
}

impl View for Page {
    type V = u64;

    /// The first address of the page.
    closed spec fn view(&self) -> u64 {
        self.start_address.0
    }
}

impl Page {
    /// The page that holds `address`.
    pub fn containing_address(address: VirtAddr) -> (page: Page)
        ensures
            page@ == page_start(address.0),
    {
        Page { start_address: VirtAddr::new(address.as_u64() & !0xfff) }
    }

    /// The first address of the page.
    pub fn start_address(self) -> (addr: VirtAddr)
        ensures
            addr.0 == self@,
    {
        self.start_address
    }
}

/// The mapping is valid.
pub const PRESENT: u64 = 1;

/// The page may be written.
pub const WRITABLE: u64 = 2;

/// The page may be used below the kernel's privilege.
pub const USER_ACCESSIBLE: u64 = 4;

/// Writes go through the cache.
pub const WRITE_THROUGH: u64 = 8;

/// The page is not cached.
pub const NO_CACHE: u64 = 16;

/// The page was used.
pub const ACCESSED: u64 = 32;

/// The page was written.
pub const DIRTY: u64 = 64;

/// The entry maps a huge page.
pub const HUGE_PAGE: u64 = 128;

/// The mapping is the same in every address space.
pub const GLOBAL: u64 = 256;

/// The page may not be executed.
pub const NO_EXECUTE: u64 = 0x8000000000000000;

/// Every bit that a set of page-table flags may carry.
pub const PAGE_TABLE_FLAGS_ALL: u64 = 0x80000000000001ff;

/// The flags of a page-table entry.
#[derive(Debug, Clone, Copy, PartialEq, Eq)]
pub struct PageTableFlags {
    bits: u64,
}

impl View for PageTableFlags {
    type V = u64;

    /// The flag bits.
    closed spec fn view(&self) -> u64 {
        self.bits
    }
}

impl PageTableFlags {
    /// The flags with exactly the bits of `bits`, if all are known.
    pub fn from_bits(bits: u64) -> (flags: Option<PageTableFlags>)
        ensures
            flags is Some <==> bits & !PAGE_TABLE_FLAGS_ALL == 0,
            flags is Some ==> flags->Some_0@ == bits,
    {
        if bits & !PAGE_TABLE_FLAGS_ALL == 0 {
            Some(PageTableFlags { bits })
        } else {
            None
        }
    }

    /// The flags with the known bits of `bits`.
    pub fn from_bits_truncate(bits: u64) -> (flags: PageTableFlags)
        ensures
            flags@ == bits & PAGE_TABLE_FLAGS_ALL,
    {
        PageTableFlags { bits: bits & PAGE_TABLE_FLAGS_ALL }
    }

    /// No flag.
    pub fn empty() -> (flags: PageTableFlags)
        ensures
            flags@ == 0,
    {
        PageTableFlags { bits: 0 }
    }

    /// The flag bits.
    pub fn bits(&self) -> (bits: u64)
        ensures
            bits == self@,
    {
        self.bits
    }

    /// Whether every bit of `other` is set.
    pub fn contains(&self, other: PageTableFlags) -> (present: bool)
        ensures
            present == (self@ & other@ == other@),
    {
        self.bits & other.bits == other.bits
    }

    /// The flags of `self` and of `other` together.
    pub fn union(&self, other: PageTableFlags) -> (flags: PageTableFlags)
        ensures
            flags@ == self@ | other@,
    {
        PageTableFlags { bits: self.bits | other.bits }
    }
}

/// One entry of a page table.
#[derive(Clone, Copy)]
pub struct PageTableEntry {
    entry: u64,
}

impl View for PageTableEntry {
    type V = u64;

    /// The raw entry word.
    closed spec fn view(&self) -> u64 {
        self.entry
    }
}

impl PageTableEntry {
    /// An unused entry.
    pub fn new() -> (entry: PageTableEntry)
        ensures
            entry@ == 0,
    {
        PageTableEntry { entry: 0 }
    }

    /// Whether the entry maps nothing.
    pub fn is_unused(&self) -> (unused: bool)
        ensures
            unused == (self@ == 0),
    {
        self.entry == 0
    }

    /// Points the entry at `frame` with `flags`.
    pub fn set_frame(&mut self, frame: PhysFrame, flags: PageTableFlags)
        ensures
            final(self)@ == frame@ | flags@,
    {
        self.entry = frame.start_address().as_u64() | flags.bits();
    }
}

/// How many entries a page table has.
pub const PAGE_TABLE_ENTRIES: usize = 512;

/// A page table.
pub struct PageTable {
    entries: [PageTableEntry; 512],
}

impl View for PageTable {
    type V = Seq<u64>;

    /// The raw entry words, in order.
    closed spec fn view(&self) -> Seq<u64> {
        Seq::new(PAGE_TABLE_ENTRIES as nat, |i: int| self.entries[i]@)
    }
}

impl PageTable {
    /// A table whose entries are all unused.
    pub fn new() -> (table: PageTable)
        ensures
            table@ == Seq::new(PAGE_TABLE_ENTRIES as nat, |i: int| 0u64),
    {
        let table = PageTable { entries: [PageTableEntry { entry: 0 };512] };
        assert(table@ =~= Seq::new(PAGE_TABLE_ENTRIES as nat, |i: int| 0u64));
        table
    }

    /// The entry at `index`.
    pub fn entry(&self, index: usize) -> (entry: PageTableEntry)
        requires
            index < PAGE_TABLE_ENTRIES,
        ensures
            entry@ == self@[index as int],
    {
        self.entries[index]
    }

    /// Points the entry at `index` at `frame` with `flags`.
    pub fn map(&mut self, index: usize, frame: PhysFrame, flags: PageTableFlags)
        requires
            index < PAGE_TABLE_ENTRIES,
        ensures
            final(self)@ == old(self)@.update(index as int, frame@ | flags@),
    {
        let mut entry = PageTableEntry::new();
        entry.set_frame(frame, flags);
        self.entries[index] = entry;
        assert(self@ =~= old(self)@.update(index as int, frame@ | flags@));
    }
}

/// The first address of the usable frame number `index`, counting through
/// the usable regions of `regions` in order.
pub open spec fn usable_frame_at(regions: Seq<MemoryRegion>, index: nat) -> Option<u64>
    decreases regions.len(),
{
    if regions.len() == 0 {
        None
    } else if index < regions[0].frame_count() {
        Some(page_start((regions[0].start + index * PAGE_SIZE) as u64))
    } else {
        usable_frame_at(regions.skip(1), (index - regions[0].frame_count()) as nat)
    }
}

/// Finds frames in the memory map that the boot environment handed over.
pub struct BootInfoFrameAllocator {
    memory_map: Vec<MemoryRegion>,
    next: usize,
}

impl BootInfoFrameAllocator {
    /// The memory map.
    pub closed spec fn regions(&self) -> Seq<MemoryRegion> {
        self.memory_map@
    }

    /// How many frames were handed out.
    pub closed spec fn handed_out(&self) -> nat {
        self.next as nat
    }

    /// Every region of the map ends within the address space.
    pub open spec fn wf(&self) -> bool {
        forall|i: int| 0 <= i < self.regions().len() ==> (#[trigger] self.regions()[i]).in_range()
    }

    /// An allocator over `memory_map`, or a refusal where a region of the
    /// map reaches beyond the address space.
    pub fn init(memory_map: Vec<MemoryRegion>) -> (r: Result<BootInfoFrameAllocator, KernelError>)
        ensures
            match r {
                Ok(allocator) => allocator.wf() && allocator.regions() == memory_map@
                    && allocator.handed_out() == 0,
                Err(e) => e == KernelError::InvalidArgument && exists|i: int|
                    0 <= i < memory_map@.len() && !(#[trigger] memory_map@[i]).in_range(),
            },
    {
        let mut i: usize = 0;
        while i < memory_map.len()
            invariant
                i <= memory_map@.len(),
                forall|k: int| 0 <= k < i ==> (#[trigger] memory_map@[k]).in_range(),
            decreases memory_map@.len() - i,
        {
            if memory_map[i].size > u64::MAX - memory_map[i].start {
                assert(!memory_map@[i as int].in_range());
                return Err(KernelError::InvalidArgument);
            }
            i += 1;
        }
        Ok(BootInfoFrameAllocator { memory_map, next: 0 })
    }

    /// The usable frame number `index`, counting through the usable regions
    /// of the map in order.
    pub fn usable_frame(&self, index: u64) -> (frame: Option<PhysFrame>)
        requires
            self.wf(),
        ensures
            match frame {
                Some(f) => usable_frame_at(self.regions(), index as nat) == Some(f@),
                None => usable_frame_at(self.regions(), index as nat) is None,
            },
    {
        let mut remaining = index;
        let mut i: usize = 0;
        assert(self.regions().skip(0) =~= self.regions());
        while i < self.memory_map.len()
            invariant
                i <= self.memory_map@.len(),
                self.wf(),
                usable_frame_at(self.regions(), index as nat) == usable_frame_at(
                    self.regions().skip(i as int),
                    remaining as nat,
                ),
            decreases self.memory_map@.len() - i,
        {
            let region = self.memory_map[i];
            let ghost rest = self.regions().skip(i as int);
            assert(rest[0] == region);
            assert(rest.skip(1) =~= self.regions().skip(i + 1));
            assert(region.in_range());
            let count = match region.region_type {
                MemoryRegionType::Usable => region.size / PAGE_SIZE + if region.size % PAGE_SIZE
                    == 0 {
                    0
                } else {
                    1
                },
                MemoryRegionType::Reserved => 0,
            };
            assert(count == region.frame_count());
            if remaining < count {
                assert(remaining * PAGE_SIZE < region.size) by (nonlinear_arith)
                    requires
                        remaining < count,
                        count == region.size / PAGE_SIZE + if region.size % PAGE_SIZE == 0 {
                            0int
                        } else {
                            1int
                        },
                        PAGE_SIZE == 4096,
                ;
                let address = region.start + remaining * PAGE_SIZE;
                return Some(PhysFrame::containing_address(PhysAddr::new(address)));
            }
            remaining -= count;
            i += 1;
        }
        assert(self.regions().skip(i as int).len() == 0);
        None
    }
}

/// The page allocator: a bump pointer over whole pages.
pub struct PageAllocator {
    next_addr: u64,
}

impl View for PageAllocator {
    type V = u64;

    /// The first address that has not been given out.
    closed spec fn view(&self) -> u64 {
        self.next_addr
    }
}

/// How many pages hold `size` bytes.
pub open spec fn pages_for(size: nat) -> nat {
    ((size + PAGE_SIZE - 1) / (PAGE_SIZE as int)) as nat
}

/// What an allocation of `size` bytes answers when the next free address
/// is `next_addr`: that address, unless the request is for no bytes or
/// does not fit below the end of the address space.
pub open spec fn allocation_result(next_addr: u64, size: usize) -> Result<u64, KernelError> {
    if size == 0 {
        Err(KernelError::InvalidArgument)
    } else if next_addr + pages_for(size as nat) * PAGE_SIZE > u64::MAX {
        Err(KernelError::ResourceExhausted)
    } else {
        Ok(next_addr)
    }
}

/// The next free address after an allocation of `size` bytes.
pub open spec fn after_allocation(next_addr: u64, size: usize) -> u64 {
    if allocation_result(next_addr, size) is Ok {
        (next_addr + pages_for(size as nat) * PAGE_SIZE) as u64
    } else {
        next_addr
    }
}

impl PageAllocator {
    /// The allocator always stands on a page boundary.
    pub open spec fn wf(&self) -> bool {
        self@ % PAGE_SIZE == 0
    }

    /// An allocator that starts at the base of the page pool.
    pub fn new() -> (allocator: PageAllocator)
        ensures
            allocator@ == PAGE_POOL_BASE,
            allocator.wf(),
    {
        PageAllocator { next_addr: PAGE_POOL_BASE }
    }

    /// Hands out the pages that hold `size` bytes and answers the address
    /// of the first.
    pub fn allocate(&mut self, size: usize) -> (r: Result<u64, KernelError>)
        requires
            old(self).wf(),
        ensures
            final(self).wf(),
            r == allocation_result(old(self)@, size),
            final(self)@ == after_allocation(old(self)@, size),
            r is Ok ==> r->Ok_0 % PAGE_SIZE == 0 && final(self)@ >= r->Ok_0 + size,
    {
        if size == 0 {
            return Err(KernelError::InvalidArgument);
        }
        let size64 = size as u64;
        let pages = size64 / PAGE_SIZE + if size64 % PAGE_SIZE == 0 {
            0
        } else {
            1
        };
        assert(pages == pages_for(size as nat));
        assert(pages * PAGE_SIZE >= size && pages * PAGE_SIZE <= size + PAGE_SIZE && (pages
            * PAGE_SIZE) % (PAGE_SIZE as int) == 0) by (nonlinear_arith)
            requires
                pages == size64 / PAGE_SIZE + if size64 % PAGE_SIZE == 0 {
                    0int
                } else {
                    1int
                },
                size64 == size,
                PAGE_SIZE == 4096,
        ;
        if pages > u64::MAX / PAGE_SIZE {
            return Err(KernelError::ResourceExhausted);
        }
        let bytes = pages * PAGE_SIZE;
        if bytes > u64::MAX - self.next_addr {
            return Err(KernelError::ResourceExhausted);
        }
        let addr = self.next_addr;
        self.next_addr = addr + bytes;
        Ok(addr)
    }
}

/// Creates the page allocator.
pub fn init() -> (allocator: PageAllocator)
    ensures
        allocator@ == PAGE_POOL_BASE,
        allocator.wf(),
{
    PageAllocator::new()
}

/// Hands out the pages that hold `size` bytes from `allocator`.
pub fn allocate_pages(allocator: &mut PageAllocator, size: usize) -> (r: Result<u64, KernelError>)
    requires
        old(allocator).wf(),
    ensures
        final(allocator).wf(),
        r == allocation_result(old(allocator)@, size),
        final(allocator)@ == after_allocation(old(allocator)@, size),
        r is Ok ==> r->Ok_0 % PAGE_SIZE == 0 && final(allocator)@ >= r->Ok_0 + size,
{
    allocator.allocate(size)
}

/// Accepts pages back. The allocator never reuses memory, so nothing
/// changes and the call always succeeds.
pub fn deallocate_pages(_addr: u64, _size: usize) -> (r: Result<(), KernelError>)
    ensures
        r == Ok::<(), KernelError>(()),
{
    Ok(())
}

} // verus!
