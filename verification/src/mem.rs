//! Model of the physical-memory collaborator: physically-contiguous mapped
//! regions, the mapping attributes they are requested with, and the interface
//! through which a driver obtains them.
//!
//! Regions are handed out in whole pages, so every region's physical base
//! address is page-aligned; descriptor rings only need 128-byte alignment,
//! which page alignment always satisfies.

use vstd::prelude::*;

verus! {

/// Size in bytes of one page of physical memory.
pub const PAGE_SIZE: usize = 4096;

/// Attributes a mapping is requested with.
#[derive(Clone, Copy, Debug, PartialEq, Eq, Structural)]
pub enum MappingFlags {
    /// Ordinary cached memory.
    Normal,
    /// Device memory: uncached, suitable for DMA and MMIO.
    DeviceUncached,
}

/// The attributes used for every mapping this crate creates: descriptor rings
/// and receive buffers are shared with a DMA-capable device.
pub const MMIO_FLAGS: MappingFlags = MappingFlags::DeviceUncached;

/// A physically-contiguous mapped region: its physical base address and its
/// size in bytes. Owning a `MappedRegion` stands for owning the mapping for
/// the region's whole lifetime; the physical address never changes.
#[derive(Debug)]
pub struct MappedRegion {
    paddr: u64,
    size: usize,
}

impl MappedRegion {
    /// The physical base address of the region.
    pub closed spec fn paddr(self) -> u64 {
        self.paddr
    }

    /// The size of the region in bytes.
    pub closed spec fn size(self) -> usize {
        self.size
    }

    /// Wraps a physical base address and a byte size as a region. Intended
    /// for implementers of [`MemoryMapper`]; the alignment promises of that
    /// trait are theirs to meet.
    pub fn new(paddr: u64, size: usize) -> (r: Self)
        ensures
            r.paddr() == paddr,
            r.size() == size,
    {
        MappedRegion { paddr, size }
    }

    /// The physical base address of the region.
    pub fn phys_addr(&self) -> (r: u64)
        ensures
            r == self.paddr(),
    {
        self.paddr
    }

    /// The size of the region in bytes.
    pub fn size_in_bytes(&self) -> (r: usize)
        ensures
            r == self.size(),
    {
        self.size
    }
}

/// The memory-management collaborator: something that can produce
/// `size` rounded up to a whole number of pages: the bytes one request of
/// `size` consumes from a mapper's budget.
pub open spec fn page_rounded(size: usize) -> int {
    ((size as int + PAGE_SIZE as int - 1) / (PAGE_SIZE as int)) * (PAGE_SIZE as int)
}

/// Page rounding rounds up, by less than one page, and never below zero.
pub proof fn lemma_page_rounded_bounds(size: usize)
    ensures
        page_rounded(size) >= size,
        page_rounded(size) <= size as int + PAGE_SIZE - 1,
        page_rounded(size) >= 0,
{
    vstd::arithmetic::div_mod::lemma_fundamental_div_mod(
        size as int + PAGE_SIZE as int - 1,
        PAGE_SIZE as int,
    );
}

/// physically-contiguous mapped regions on request.
///
/// A kernel implements this over its frame allocator and page tables; this
/// crate ships [`BumpMapper`], a deterministic implementation for hosted use
/// and tests. Every implementation hands out whole, page-aligned pages, which
/// is what makes descriptor rings meet their 128-byte alignment requirement.
pub trait MemoryMapper {
    /// A lower bound, in bytes, on how much the mapper still guarantees to
    /// map: while a request's page-rounded size fits under this budget, the
    /// request succeeds, and it draws at most its page-rounded size from the
    /// budget. An implementation that promises nothing may define it as zero;
    /// every implementation thereby guarantees zero-byte requests.
    spec fn map_budget(&self) -> nat;

    /// A physical address below which no further region will be placed:
    /// every region handed out from now on starts at or above it, and it
    /// moves past each region handed out. Regions obtained one after another
    /// from the same mapper therefore never overlap.
    spec fn frontier(&self) -> int;

    /// Requests a physically-contiguous mapped region of at least
    /// `size_in_bytes` bytes with the given attributes. On success the region
    /// covers whole pages: its size is a page multiple no smaller than the
    /// request, and its physical base address is page-aligned.
    fn create_contiguous_mapping(
        &mut self,
        size_in_bytes: usize,
        flags: MappingFlags,
    ) -> (r: Result<MappedRegion, &'static str>)
        ensures
            r matches Ok(region) ==> ({
                &&& region.size() >= size_in_bytes
                &&& region.size() % PAGE_SIZE == 0
                &&& region.paddr() % (PAGE_SIZE as u64) == 0
                &&& region.paddr() >= old(self).frontier()
                &&& final(self).frontier() >= region.paddr() + region.size()
                &&& final(self).map_budget() >= old(self).map_budget() - page_rounded(
                    size_in_bytes,
                )
            }),
            old(self).map_budget() >= page_rounded(size_in_bytes) ==> r is Ok,
            r is Err ==> ({
                &&& final(self).map_budget() >= old(self).map_budget()
                &&& final(self).frontier() >= old(self).frontier()
            }),
    ;
}

/// A deterministic [`MemoryMapper`]: hands out successive page-aligned
/// regions from a fixed range of physical pages, and fails with an error once
/// the range is exhausted.
pub struct BumpMapper {
    next_page: u32,
    end_page: u32,
}

impl BumpMapper {
    /// The number of the next page to hand out.
    pub closed spec fn next_page(self) -> u32 {
        self.next_page
    }

    /// One past the number of the last page available.
    pub closed spec fn end_page(self) -> u32 {
        self.end_page
    }

    /// A mapper that owns `page_count` pages starting at page number
    /// `first_page` (physical address `first_page * PAGE_SIZE`). Its budget
    /// is the byte size of those pages, and its frontier starts at their
    /// base: nothing has been handed out yet.
    pub fn new(first_page: u32, page_count: u32) -> (r: Self)
        requires
            first_page + page_count <= u32::MAX,
        ensures
            r.next_page() == first_page,
            r.end_page() == first_page + page_count,
            r.frontier() == first_page as int * (PAGE_SIZE as int),
            page_count as int * (PAGE_SIZE as int) <= usize::MAX as int - (PAGE_SIZE as int - 1)
                ==> r.map_budget() == page_count as int * (PAGE_SIZE as int),
    {
        BumpMapper { next_page: first_page, end_page: first_page + page_count }
    }
}

impl MemoryMapper for BumpMapper {
    closed spec fn map_budget(&self) -> nat {
        if self.next_page <= self.end_page {
            let bytes = (self.end_page - self.next_page) as int * (PAGE_SIZE as int);
            if bytes > usize::MAX as int - (PAGE_SIZE as int - 1) {
                (usize::MAX - (PAGE_SIZE - 1)) as nat
            } else {
                bytes as nat
            }
        } else {
            0
        }
    }

    closed spec fn frontier(&self) -> int {
        self.next_page as int * (PAGE_SIZE as int)
    }

    fn create_contiguous_mapping(
        &mut self,
        size_in_bytes: usize,
        _flags: MappingFlags,
    ) -> (r: Result<MappedRegion, &'static str>) {
        proof {
            lemma_page_rounded_bounds(size_in_bytes);
        }
        if size_in_bytes > usize::MAX - (PAGE_SIZE - 1) {
            // The budget never exceeds usize::MAX - (PAGE_SIZE - 1), so a
            // request this large is never owed success.
            return Err("requested mapping size too large");
        }
        let pages_needed: usize = (size_in_bytes + (PAGE_SIZE - 1)) / PAGE_SIZE;
        proof {
            assert(pages_needed as int * (PAGE_SIZE as int) == page_rounded(size_in_bytes));
        }
        let avail: u32 = if self.next_page <= self.end_page {
            self.end_page - self.next_page
        } else {
            0
        };
        if pages_needed as u64 > avail as u64 {
            proof {
                // The budget is at most avail * PAGE_SIZE bytes, so a request
                // needing more pages than are available exceeds the budget.
                if self.map_budget() >= page_rounded(size_in_bytes) {
                    assert(self.map_budget() <= avail as int * (PAGE_SIZE as int)) by (nonlinear_arith)
                        requires
                            self.map_budget() == if self.next_page <= self.end_page {
                                let bytes = (self.end_page - self.next_page) as int * (
                                PAGE_SIZE as int);
                                if bytes > usize::MAX as int - (PAGE_SIZE as int - 1) {
                                    (usize::MAX - (PAGE_SIZE - 1)) as nat
                                } else {
                                    bytes as nat
                                }
                            } else {
                                0
                            },
                            avail == if self.next_page <= self.end_page {
                                self.end_page - self.next_page
                            } else {
                                0
                            },
                            PAGE_SIZE == 4096,
                    ;
                    assert(pages_needed as int <= avail as int) by (nonlinear_arith)
                        requires
                            pages_needed as int * (PAGE_SIZE as int) <= avail as int * (
                            PAGE_SIZE as int),
                            PAGE_SIZE == 4096,
                    ;
                    assert(false);
                }
            }
            return Err("out of physical memory");
        }
        proof {
            let sz = size_in_bytes as int;
            vstd::arithmetic::div_mod::lemma_fundamental_div_mod(
                sz + (PAGE_SIZE - 1),
                PAGE_SIZE as int,
            );
            vstd::arithmetic::div_mod::lemma_mod_multiples_basic(
                pages_needed as int,
                PAGE_SIZE as int,
            );
            vstd::arithmetic::div_mod::lemma_mod_multiples_basic(
                self.next_page as int,
                PAGE_SIZE as int,
            );
        }
        let paddr: u64 = (self.next_page as u64) * (PAGE_SIZE as u64);
        let size: usize = pages_needed * PAGE_SIZE;
        proof {
            assert((self.next_page as int + pages_needed as int) * (PAGE_SIZE as int)
                == self.next_page as int * (PAGE_SIZE as int) + pages_needed as int * (
            PAGE_SIZE as int)) by (nonlinear_arith);
            assert((self.end_page as int - self.next_page as int - pages_needed as int) * (
            PAGE_SIZE as int) == (self.end_page as int - self.next_page as int) * (PAGE_SIZE as int)
                - pages_needed as int * (PAGE_SIZE as int)) by (nonlinear_arith);
        }
        self.next_page = self.next_page + (pages_needed as u32);
        Ok(MappedRegion::new(paddr, size))
    }
}

} // verus!
