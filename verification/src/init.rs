//! Ring initialization: allocating a descriptor array for a receive or
//! transmit queue, populating it, and programming the queue's registers.
//!
//! A ring is brought up in a fixed order: the descriptor array is allocated
//! and every descriptor made valid first, and the device registers are
//! programmed last, so a failure never leaves the device pointed at a
//! half-built ring.

use vstd::math::min;
use vstd::prelude::*;

use crate::buffers::distinct_below;
use crate::buffers::lemma_distinct_below_push;
use crate::buffers::lemma_distinct_below_push_distinct;
use crate::buffers::lemma_distinct_below_widen;
use crate::buffers::BufView;
use crate::buffers::ReceiveBuffer;
use crate::descriptors::Descriptor;
use crate::descriptors::RxDescriptor;
use crate::descriptors::TxDescriptor;
use crate::mem::MappedRegion;
use crate::mem::MappingFlags;
use crate::mem::lemma_page_rounded_bounds;
use crate::mem::page_rounded;
use crate::mem::MemoryMapper;
use crate::mem::MMIO_FLAGS;
use crate::mem::PAGE_SIZE;
use crate::pool::BufferPool;
use crate::registers::RxQueueRegisters;
use crate::registers::RxRegisterValues;
use crate::registers::TxQueueRegisters;
use crate::registers::TxRegisterValues;

verus! {

/// The alignment in bytes the hardware requires of a descriptor array's
/// physical base address.
pub const DESCRIPTOR_ALIGNMENT: u64 = 128;

/// Page alignment always satisfies the descriptor-alignment requirement:
/// any page-aligned physical address is also 128-byte aligned.
pub proof fn lemma_page_aligned_is_descriptor_aligned(addr: u64)
    requires
        addr % (PAGE_SIZE as u64) == 0,
    ensures
        addr % DESCRIPTOR_ALIGNMENT == 0,
{
    assert(addr % 4096 == 0 ==> addr % 128 == 0) by (bit_vector);
}

/// A hardware-visible descriptor array: a physically-contiguous mapped
/// region viewed as `len()` typed descriptor records. The records and the
/// region are kept together so the array's physical address — the address
/// programmed into the device — is fixed for the array's whole lifetime.
pub struct DescriptorArray<T: Descriptor> {
    records: Vec<T>,
    region: MappedRegion,
}

impl<T: Descriptor> View for DescriptorArray<T> {
    type V = Seq<T>;

    closed spec fn view(&self) -> Seq<T> {
        self.records@
    }
}

impl<T: Descriptor> DescriptorArray<T> {
    /// The physical base address of the array.
    pub closed spec fn paddr(self) -> u64 {
        self.region.paddr()
    }

    /// The size in bytes of the region backing the array.
    pub closed spec fn region_size(self) -> usize {
        self.region.size()
    }

    /// The records all fit inside the backing region.
    pub open spec fn wf(self) -> bool {
        self@.len() * T::record_size_spec() <= self.region_size()
    }

    /// Views a mapped region as an array of `count` descriptor records, all
    /// in the zeroed state fresh device memory holds. Fails, handing the
    /// region back, when the region cannot safely host that many records.
    pub fn from_region(region: MappedRegion, count: usize) -> (r: Result<
        DescriptorArray<T>,
        (MappedRegion, &'static str),
    >)
        ensures
            count * T::record_size_spec() <= region.size() ==> (r matches Ok(arr) && arr.wf()
                && arr@ == Seq::new(count as nat, |i: int| T::zeroed_spec()) && arr.paddr()
                == region.paddr() && arr.region_size() == region.size()),
            count * T::record_size_spec() > region.size() ==> (r matches Err(p) && p.0 == region),
    {
        let record_size = T::record_size();
        let total = match count.checked_mul(record_size) {
            Some(total) => total,
            None => {
                return Err((region, "descriptor array does not fit in its mapped region"));
            },
        };
        if total > region.size_in_bytes() {
            return Err((region, "descriptor array does not fit in its mapped region"));
        }
        let mut records: Vec<T> = Vec::new();
        for i in 0..count
            invariant
                records@.len() == i,
                forall|j: int| 0 <= j < i ==> records@[j] == T::zeroed_spec(),
        {
            records.push(T::zeroed());
        }
        proof {
            assert(records@ =~= Seq::new(count as nat, |i: int| T::zeroed_spec()));
        }
        Ok(DescriptorArray { records, region })
    }

    /// The number of descriptor records in the array.
    pub fn len(&self) -> (n: usize)
        ensures
            n == self@.len(),
    {
        self.records.len()
    }

    /// The physical base address of the array.
    pub fn phys_addr(&self) -> (r: u64)
        ensures
            r == self.paddr(),
    {
        self.region.phys_addr()
    }

    /// A reference to record `index`.
    pub fn record(&self, index: usize) -> (r: &T)
        requires
            index < self@.len(),
        ensures
            *r == self@[index as int],
    {
        &self.records[index]
    }
}

/// A budget that covered `n` same-sized allocations, of which `i < n` are
/// already drawn, still covers one more.
proof fn lemma_budget_remains(budget0: int, current: int, pr: int, n: int, i: int)
    requires
        pr >= 0,
        current >= budget0 - i * pr,
        budget0 >= n * pr,
        i < n,
    ensures
        current >= pr,
{
    assert(n * pr - i * pr >= pr) by (nonlinear_arith)
        requires
            i < n,
            pr >= 0,
    ;
}

/// Drawing one more allocation's worth from a budget with `i` allocations
/// already drawn leaves a budget with `i + 1` drawn.
proof fn lemma_budget_step(budget0: int, current: int, pr: int, i: int)
    requires
        current >= budget0 - i * pr,
    ensures
        current - pr >= budget0 - (i + 1) * pr,
{
    assert((i + 1) * pr == i * pr + pr) by (nonlinear_arith);
}

/// Initializes the receive buffer pool from which receive buffers are taken
/// and returned: allocates `num_rx_buffers` fresh device-mapped regions of
/// `buffer_size` bytes each, wraps each as a receive buffer, and pushes each
/// into the pool.
///
/// Fails with the underlying allocation error if a mapping cannot be
/// created, or with a pool-capacity error if the pool fills before all
/// `num_rx_buffers` insertions complete — requesting more buffers than the
/// pool's capacity is a misconfiguration and is surfaced, not swallowed.
/// Either way the buffers already inserted remain in the pool.
///
/// Success is owed whenever the pool has room for all `num_rx_buffers`
/// buffers and the mapper's budget covers their page-rounded sizes; the
/// pool-capacity error, with the pool ending exactly at capacity, is owed
/// whenever the pool lacks the room and the budget holds out until it fills.
pub fn init_rx_buf_pool<M: MemoryMapper>(
    num_rx_buffers: usize,
    buffer_size: u16,
    rx_buffer_pool: &mut BufferPool,
    mapper: &mut M,
) -> (r: Result<(), &'static str>)
    requires
        old(rx_buffer_pool).wf(),
    ensures
        final(rx_buffer_pool).wf(),
        final(rx_buffer_pool).capacity_spec() == old(rx_buffer_pool).capacity_spec(),
        final(rx_buffer_pool)@.len() >= old(rx_buffer_pool)@.len(),
        final(rx_buffer_pool)@.len() <= old(rx_buffer_pool)@.len() + num_rx_buffers,
        final(rx_buffer_pool)@.take(old(rx_buffer_pool)@.len() as int) == old(rx_buffer_pool)@,
        forall|i: int|
            old(rx_buffer_pool)@.len() <= i < final(rx_buffer_pool)@.len() ==> ((
            #[trigger] final(rx_buffer_pool)@[i]).wf() && final(rx_buffer_pool)@[i].len
                == buffer_size),
        r is Ok ==> final(rx_buffer_pool)@.len() == old(rx_buffer_pool)@.len() + num_rx_buffers,
        old(rx_buffer_pool)@.len() + num_rx_buffers > old(rx_buffer_pool).capacity_spec()
            ==> r is Err,
        old(rx_buffer_pool)@.len() + num_rx_buffers <= old(rx_buffer_pool).capacity_spec() && old(
            mapper,
        ).map_budget() >= num_rx_buffers * page_rounded(buffer_size as usize) ==> r is Ok,
        r is Ok ==> final(mapper).map_budget() >= old(mapper).map_budget() - num_rx_buffers
            * page_rounded(buffer_size as usize),
        old(rx_buffer_pool)@.len() + num_rx_buffers > old(rx_buffer_pool).capacity_spec() && old(
            mapper,
        ).map_budget() >= (old(rx_buffer_pool).capacity_spec() - old(rx_buffer_pool)@.len() + 1)
            * page_rounded(buffer_size as usize) ==> (r matches Err(e) && e@
            == "nic rx buffer pool is full"@ && final(rx_buffer_pool)@.len() == old(
            rx_buffer_pool,
        ).capacity_spec()),
        buffer_size >= 1 && distinct_below(old(rx_buffer_pool)@, old(mapper).frontier())
            ==> distinct_below(final(rx_buffer_pool)@, final(mapper).frontier()),
{
    let ghost orig = rx_buffer_pool@;
    let ghost orig_len = rx_buffer_pool@.len() as int;
    let ghost cap = old(rx_buffer_pool).capacity_spec() as int;
    let ghost budget0 = old(mapper).map_budget() as int;
    let ghost pr = page_rounded(buffer_size as usize);
    let ghost frontier0 = old(mapper).frontier();
    proof {
        lemma_page_rounded_bounds(buffer_size as usize);
    }
    for i in 0..num_rx_buffers
        invariant
            rx_buffer_pool.wf(),
            rx_buffer_pool.capacity_spec() == old(rx_buffer_pool).capacity_spec(),
            cap == old(rx_buffer_pool).capacity_spec(),
            rx_buffer_pool@.len() == orig_len + i,
            rx_buffer_pool@.take(orig_len) == orig,
            orig == old(rx_buffer_pool)@,
            orig_len == orig.len(),
            forall|j: int|
                orig_len <= j < rx_buffer_pool@.len() ==> ((#[trigger] rx_buffer_pool@[j]).wf()
                    && rx_buffer_pool@[j].len == buffer_size),
            budget0 == old(mapper).map_budget(),
            pr == page_rounded(buffer_size as usize),
            pr >= buffer_size,
            pr >= 0,
            mapper.map_budget() >= budget0 - i * pr,
            frontier0 == old(mapper).frontier(),
            mapper.frontier() >= frontier0,
            buffer_size >= 1 && distinct_below(orig, frontier0) ==> distinct_below(
                rx_buffer_pool@,
                mapper.frontier(),
            ),
    {
        let ghost budget_at_top = mapper.map_budget() as int;
        let ghost frontier_at_top = mapper.frontier();
        let region = match mapper.create_contiguous_mapping(buffer_size as usize, MMIO_FLAGS) {
            Ok(mp) => mp,
            Err(e) => {
                proof {
                    // Under either owed-outcome premise the budget still
                    // covered this allocation, so this failure refutes them.
                    if budget0 >= num_rx_buffers * pr {
                        lemma_budget_remains(
                            budget0,
                            budget_at_top,
                            pr,
                            num_rx_buffers as int,
                            i as int,
                        );
                    }
                    if orig_len + num_rx_buffers > cap && budget0 >= (cap - orig_len + 1) * pr {
                        lemma_budget_remains(budget0, budget_at_top, pr, cap - orig_len + 1, i as int);
                    }
                    if buffer_size >= 1 && distinct_below(orig, frontier0) {
                        lemma_distinct_below_widen(
                            rx_buffer_pool@,
                            frontier_at_top,
                            mapper.frontier(),
                        );
                    }
                }
                return Err(e);
            },
        };
        proof {
            lemma_budget_step(budget0, budget_at_top, pr, i as int);
        }
        let rx_buf = match ReceiveBuffer::new(region, buffer_size) {
            Ok(b) => b,
            Err((_mp, e)) => {
                // Unreachable: the mapper promised a region of at least
                // `buffer_size` bytes.
                return Err(e);
            },
        };
        let ghost before = rx_buffer_pool@;
        match rx_buffer_pool.release(rx_buf) {
            Ok(()) => {
                proof {
                    assert(rx_buffer_pool@.take(orig_len) =~= before.take(orig_len));
                    if buffer_size >= 1 && distinct_below(orig, frontier0) {
                        lemma_distinct_below_push(
                            before,
                            rx_buf@,
                            frontier_at_top,
                            mapper.frontier(),
                        );
                    }
                }
            },
            Err(_full) => {
                // The pool is at capacity: surface the misconfiguration. The
                // buffer just built is dropped; the ones already inserted
                // stay in the pool.
                proof {
                    if buffer_size >= 1 && distinct_below(orig, frontier0) {
                        lemma_distinct_below_widen(
                            rx_buffer_pool@,
                            frontier_at_top,
                            mapper.frontier(),
                        );
                    }
                }
                return Err("nic rx buffer pool is full");
            },
        }
    }
    Ok(())
}

/// Offers every buffer in `buffers`, in order, back to the pool. Buffers
/// that no longer fit — the pool is at capacity — are dropped, which frees
/// their regions.
fn return_buffers(rx_buffer_pool: &mut BufferPool, buffers: Vec<ReceiveBuffer>)
    requires
        old(rx_buffer_pool).wf(),
        forall|i: int| 0 <= i < buffers@.len() ==> (#[trigger] buffers@[i]).wf(),
    ensures
        final(rx_buffer_pool).wf(),
        final(rx_buffer_pool).capacity_spec() == old(rx_buffer_pool).capacity_spec(),
        final(rx_buffer_pool)@ == old(rx_buffer_pool)@ + buffers@.map_values(
            |b: ReceiveBuffer| b@,
        ).take(
            min(
                buffers@.len() as int,
                old(rx_buffer_pool).capacity_spec() - old(rx_buffer_pool)@.len(),
            ),
        ),
{
    let mut buffers = buffers;
    let ghost all = buffers@;
    let ghost views = all.map_values(|b: ReceiveBuffer| b@);
    let ghost orig = old(rx_buffer_pool)@;
    let ghost room: int = old(rx_buffer_pool).capacity_spec() - old(rx_buffer_pool)@.len();
    let ghost mut k: int = 0;
    while buffers.len() > 0
        invariant
            0 <= k <= all.len(),
            buffers@ == all.skip(k),
            views == all.map_values(|b: ReceiveBuffer| b@),
            forall|i: int| 0 <= i < all.len() ==> (#[trigger] all[i]).wf(),
            rx_buffer_pool.wf(),
            rx_buffer_pool.capacity_spec() == old(rx_buffer_pool).capacity_spec(),
            room == old(rx_buffer_pool).capacity_spec() - orig.len(),
            orig == old(rx_buffer_pool)@,
            rx_buffer_pool@ == orig + views.take(min(k, room)),
        decreases buffers@.len(),
    {
        let b = buffers.remove(0);
        proof {
            assert(b == all[k]);
            assert(buffers@ =~= all.skip(k + 1));
        }
        let ghost before = rx_buffer_pool@;
        match rx_buffer_pool.release(b) {
            Ok(()) => {
                proof {
                    assert(min(k + 1, room) == min(k, room) + 1);
                    assert(views.take(min(k + 1, room)) =~= views.take(min(k, room)).push(b@));
                    assert(rx_buffer_pool@ =~= orig + views.take(min(k + 1, room)));
                }
            },
            Err(_full) => {
                proof {
                    assert(min(k + 1, room) == min(k, room));
                }
            },
        }
        proof {
            k = k + 1;
        }
    }
    proof {
        assert(k == all.len());
        assert(views.take(min(k, room)) =~= views.take(min(all.len() as int, room)));
    }
}

/// Creates and initializes a receive descriptor queue: allocates a
/// descriptor array of `num_desc` records, attaches one receive buffer to
/// each descriptor — drawn from `rx_buffer_pool` while it has any, freshly
/// allocated with `buffer_size` bytes once it is empty — and programs the
/// receive registers with the array's physical address (split into 32-bit
/// halves), the ring length in bytes, and head and tail indices of zero.
///
/// Returns the descriptor array together with the attached buffers, index
/// for index: the physical address recorded in descriptor `i` is the
/// physical address of returned buffer `i`.
///
/// On failure the underlying allocation error is returned unchanged, the
/// registers are left untouched, and every buffer drawn from the pool has
/// been offered back to it, oldest first.
///
/// Failure can only come from the mapper: while the mapper's budget covers
/// the ring and every fresh buffer the pool cannot supply, the call
/// succeeds — pool exhaustion only changes the allocation source, and a
/// zero-length ring needs no buffers at all. When the pool's buffers are
/// pairwise distinct and lie below the mapper's frontier, the attachment is
/// also exclusive: no two attached buffers share a physical address.
pub fn init_rx_queue<T: RxDescriptor, S: RxQueueRegisters, M: MemoryMapper>(
    num_desc: usize,
    rx_buffer_pool: &mut BufferPool,
    buffer_size: usize,
    rxq_regs: &mut S,
    mapper: &mut M,
) -> (r: Result<(DescriptorArray<T>, Vec<ReceiveBuffer>), &'static str>)
    requires
        old(rx_buffer_pool).wf(),
        buffer_size <= u16::MAX as usize,
        num_desc * T::record_size_spec() <= u32::MAX as usize,
    ensures
        final(rx_buffer_pool).wf(),
        final(rx_buffer_pool).capacity_spec() == old(rx_buffer_pool).capacity_spec(),
        old(mapper).map_budget() >= page_rounded((num_desc * T::record_size_spec()) as usize) + (
        num_desc - min(num_desc as int, old(rx_buffer_pool)@.len() as int)) * page_rounded(
            buffer_size,
        ) ==> r is Ok,
        r is Ok ==> final(mapper).map_budget() >= old(mapper).map_budget() - page_rounded(
            (num_desc * T::record_size_spec()) as usize,
        ) - (num_desc - min(num_desc as int, old(rx_buffer_pool)@.len() as int)) * page_rounded(
            buffer_size,
        ),
        r matches Ok(pair) ==> ((buffer_size >= 1 && distinct_below(
            old(rx_buffer_pool)@,
            old(mapper).frontier(),
        )) ==> (forall|a: int, b: int|
            0 <= a < b < pair.1@.len() ==> (#[trigger] pair.1@[a])@.paddr != (
            #[trigger] pair.1@[b])@.paddr)),
        r matches Ok(pair) ==> ({
            let ring = pair.0;
            let bufs = pair.1;
            &&& ring.wf()
            &&& ring@.len() == num_desc
            &&& bufs@.len() == num_desc
            &&& ring.paddr() % (PAGE_SIZE as u64) == 0
            &&& ring.paddr() % DESCRIPTOR_ALIGNMENT == 0
            &&& forall|i: int|
                0 <= i < num_desc ==> (#[trigger] ring@[i]).buffer_addr() == bufs@[i]@.paddr
            &&& forall|i: int| 0 <= i < num_desc ==> (#[trigger] bufs@[i]).wf()
            &&& forall|i: int|
                0 <= i < num_desc && i < old(rx_buffer_pool)@.len() ==> (#[trigger] bufs@[i])@
                    == old(rx_buffer_pool)@[i]
            &&& forall|i: int|
                old(rx_buffer_pool)@.len() <= i < num_desc ==> (#[trigger] bufs@[i])@.len
                    == buffer_size as u16
            &&& final(rx_buffer_pool)@ == old(rx_buffer_pool)@.skip(
                min(num_desc as int, old(rx_buffer_pool)@.len() as int),
            )
            &&& final(rxq_regs).reg_state() == (RxRegisterValues {
                rdbal: (ring.paddr() & 0xFFFF_FFFF) as u32,
                rdbah: (ring.paddr() >> 32) as u32,
                rdlen: (num_desc * T::record_size_spec()) as u32,
                rdh: 0,
                rdt: 0,
            })
        }),
        r is Err ==> ({
            &&& final(rxq_regs).reg_state() == old(rxq_regs).reg_state()
            &&& old(rx_buffer_pool)@.is_prefix_of(final(rx_buffer_pool)@)
        }),
{
    let ghost orig = rx_buffer_pool@;
    let ghost orig_len = orig.len() as int;
    let ghost budget0 = old(mapper).map_budget() as int;
    let ghost pr_ring = page_rounded((num_desc * T::record_size_spec()) as usize);
    let ghost pr_buf = page_rounded(buffer_size);
    let ghost frontier0 = old(mapper).frontier();
    let ghost fresh_total: int = if num_desc as int > orig_len {
        num_desc - orig_len
    } else {
        0
    };
    proof {
        lemma_page_rounded_bounds((num_desc * T::record_size_spec()) as usize);
        lemma_page_rounded_bounds(buffer_size);
        assert(fresh_total * pr_buf >= 0) by (nonlinear_arith)
            requires
                fresh_total >= 0,
                pr_buf >= 0,
        ;
    }

    let size_in_bytes_of_all_rx_descs = num_desc * T::record_size();

    // Rx descriptors must be 128-byte aligned, which holds because the
    // mapping is aligned to a page boundary.
    let region = match mapper.create_contiguous_mapping(size_in_bytes_of_all_rx_descs, MMIO_FLAGS) {
        Ok(region) => region,
        Err(e) => {
            proof {
                assert(rx_buffer_pool@ =~= rx_buffer_pool@.subrange(0, rx_buffer_pool@.len() as int));
            }
            return Err(e);
        },
    };

    // View the physically-contiguous mapping as a slice of receive
    // descriptors.
    let mut rx_descs = match DescriptorArray::<T>::from_region(region, num_desc) {
        Ok(arr) => arr,
        Err((_mp, e)) => {
            proof {
                assert(rx_buffer_pool@ =~= rx_buffer_pool@.subrange(0, rx_buffer_pool@.len() as int));
            }
            return Err(e);
        },
    };

    let ghost ring_paddr = rx_descs.paddr();
    let ghost ring_region_size = rx_descs.region_size();

    // Attach one receive buffer to each descriptor, in index order.
    let mut rx_bufs_in_use: Vec<ReceiveBuffer> = Vec::with_capacity(num_desc);
    for i in 0..num_desc
        invariant
            rx_descs@.len() == num_desc,
            rx_descs.paddr() == ring_paddr,
            rx_descs.region_size() == ring_region_size,
            rx_descs.wf(),
            rx_buffer_pool.wf(),
            rx_buffer_pool.capacity_spec() == old(rx_buffer_pool).capacity_spec(),
            orig == old(rx_buffer_pool)@,
            orig_len == orig.len(),
            orig_len <= old(rx_buffer_pool).capacity_spec(),
            rx_buffer_pool@ == orig.skip(min(i as int, orig_len)),
            rx_bufs_in_use@.len() == i,
            forall|j: int| 0 <= j < i ==> (#[trigger] rx_bufs_in_use@[j]).wf(),
            forall|j: int|
                0 <= j < i && j < orig_len ==> (#[trigger] rx_bufs_in_use@[j])@ == orig[j],
            forall|j: int|
                orig_len <= j < i ==> (#[trigger] rx_bufs_in_use@[j])@.len == buffer_size as u16,
            forall|j: int|
                0 <= j < i ==> (#[trigger] rx_descs@[j]).buffer_addr() == rx_bufs_in_use@[j]@.paddr,
            rxq_regs.reg_state() == old(rxq_regs).reg_state(),
            buffer_size <= u16::MAX as usize,
            budget0 == old(mapper).map_budget(),
            pr_ring == page_rounded((num_desc * T::record_size_spec()) as usize),
            pr_buf == page_rounded(buffer_size),
            pr_buf >= buffer_size,
            pr_buf >= 0,
            fresh_total == (if num_desc as int > orig_len {
                num_desc - orig_len
            } else {
                0
            }),
            mapper.map_budget() >= budget0 - pr_ring - (if i as int > orig_len {
                i - orig_len
            } else {
                0
            }) * pr_buf,
            frontier0 == old(mapper).frontier(),
            mapper.frontier() >= frontier0,
            buffer_size >= 1 && distinct_below(orig, frontier0) ==> distinct_below(
                rx_bufs_in_use@.map_values(|b: ReceiveBuffer| b@),
                mapper.frontier(),
            ),
    {
        let ghost views_before = rx_bufs_in_use@.map_values(|b: ReceiveBuffer| b@);
        let ghost budget_at_top = mapper.map_budget() as int;
        let ghost frontier_at_top = mapper.frontier();
        let ghost fresh_done: int = if i as int > orig_len {
            i - orig_len
        } else {
            0
        };
        // Obtain a buffer: from the pool while it has one, else by
        // allocating a fresh region bound for the pool.
        let rx_buf = match rx_buffer_pool.acquire() {
            Some(b) => {
                proof {
                    assert(orig.skip(i as int).drop_first() =~= orig.skip(i + 1));
                    if buffer_size >= 1 && distinct_below(orig, frontier0) {
                        // A pool buffer: everything attached so far is also
                        // a pool buffer, and the pool's buffers are pairwise
                        // distinct and below the frontier.
                        assert(b@ == orig[i as int]);
                        assert forall|j: int|
                            0 <= j < views_before.len() implies (
                        #[trigger] views_before[j]).paddr != b@.paddr by {
                            assert(views_before[j] == rx_bufs_in_use@[j]@);
                            assert(rx_bufs_in_use@[j]@ == orig[j]);
                        }
                        lemma_distinct_below_push_distinct(views_before, b@, mapper.frontier());
                    }
                }
                b
            },
            None => {
                let buf_region = match mapper.create_contiguous_mapping(buffer_size, MMIO_FLAGS) {
                    Ok(mp) => mp,
                    Err(e) => {
                        proof {
                            // Under the owed-success premise the budget
                            // still covered this buffer, so this failure
                            // refutes the premise.
                            if budget0 >= pr_ring + fresh_total * pr_buf {
                                lemma_budget_remains(
                                    budget0 - pr_ring,
                                    budget_at_top,
                                    pr_buf,
                                    fresh_total,
                                    fresh_done,
                                );
                            }
                        }
                        let ghost drained = rx_bufs_in_use@;
                        let ghost emptied = rx_buffer_pool@;
                        return_buffers(rx_buffer_pool, rx_bufs_in_use);
                        proof {
                            lemma_returned_buffers_restore_prefix(
                                orig,
                                drained,
                                emptied,
                                rx_buffer_pool@,
                                old(rx_buffer_pool).capacity_spec() as int,
                            );
                        }
                        return Err(e);
                    },
                };
                match ReceiveBuffer::new(buf_region, buffer_size as u16) {
                    Ok(b) => {
                        proof {
                            lemma_budget_step(budget0 - pr_ring, budget_at_top, pr_buf, fresh_done);
                            if buffer_size >= 1 && distinct_below(orig, frontier0) {
                                // A fresh buffer: placed at or above the old
                                // frontier, below the advanced one.
                                lemma_distinct_below_push(
                                    views_before,
                                    b@,
                                    frontier_at_top,
                                    mapper.frontier(),
                                );
                            }
                        }
                        b
                    },
                    Err((_mp, e)) => {
                        let ghost drained = rx_bufs_in_use@;
                        let ghost emptied = rx_buffer_pool@;
                        return_buffers(rx_buffer_pool, rx_bufs_in_use);
                        proof {
                            lemma_returned_buffers_restore_prefix(
                                orig,
                                drained,
                                emptied,
                                rx_buffer_pool@,
                                old(rx_buffer_pool).capacity_spec() as int,
                            );
                        }
                        return Err(e);
                    },
                }
            },
        };
        let paddr_buf = rx_buf.phys_addr();
        rx_bufs_in_use.push(rx_buf);
        proof {
            assert(rx_bufs_in_use@.map_values(|b: ReceiveBuffer| b@) =~= views_before.push(
                rx_buf@,
            ));
        }

        // Record the buffer's physical address in descriptor `i`.
        let mut rec = T::zeroed();
        rec.init(paddr_buf);
        rx_descs.records.set(i, rec);
    }

    let paddr = rx_descs.phys_addr();
    proof {
        lemma_page_aligned_is_descriptor_aligned(paddr);
        assert((paddr & 0xFFFF_FFFF) <= 0xFFFF_FFFF) by (bit_vector);
        assert((paddr >> 32) <= 0xFFFF_FFFF) by (bit_vector);
    }
    let rx_desc_phys_addr_lower = (paddr & 0xFFFF_FFFF) as u32;
    let rx_desc_phys_addr_higher = (paddr >> 32) as u32;

    // Write the physical address of the rx descs ring, then the length in
    // bytes of the array, then head and tail indices of zero: the ring
    // starts empty of pending hardware work.
    rxq_regs.set_rdbal(rx_desc_phys_addr_lower);
    rxq_regs.set_rdbah(rx_desc_phys_addr_higher);
    rxq_regs.set_rdlen(size_in_bytes_of_all_rx_descs as u32);
    rxq_regs.set_rdh(0);
    rxq_regs.set_rdt(0);

    proof {
        if buffer_size >= 1 && distinct_below(orig, frontier0) {
            let views = rx_bufs_in_use@.map_values(|b: ReceiveBuffer| b@);
            assert forall|a: int, b: int|
                0 <= a < b < rx_bufs_in_use@.len() implies (#[trigger] rx_bufs_in_use@[a])@.paddr
                != (#[trigger] rx_bufs_in_use@[b])@.paddr by {
                assert(views[a] == rx_bufs_in_use@[a]@);
                assert(views[b] == rx_bufs_in_use@[b]@);
            }
        }
    }

    Ok((rx_descs, rx_bufs_in_use))
}

/// After a failed receive-ring initialization, offering the drained buffers
/// back restores the pool's original contents as a prefix: the drained pool
/// was empty, the buffers offered back start with the original contents in
/// order, and the original contents fit under the capacity.
proof fn lemma_returned_buffers_restore_prefix(
    orig: Seq<BufView>,
    drained: Seq<ReceiveBuffer>,
    emptied: Seq<BufView>,
    restored: Seq<BufView>,
    cap: int,
)
    requires
        emptied.len() == 0,
        orig.len() <= cap,
        orig.len() <= drained.len(),
        forall|j: int| 0 <= j < orig.len() ==> (#[trigger] drained[j])@ == orig[j],
        restored == emptied + drained.map_values(|b: ReceiveBuffer| b@).take(
            min(drained.len() as int, cap - emptied.len()),
        ),
    ensures
        orig.is_prefix_of(restored),
{
    let views = drained.map_values(|b: ReceiveBuffer| b@);
    assert(restored =~= views.take(min(drained.len() as int, cap)));
    assert(orig.len() <= restored.len());
    assert(orig =~= restored.subrange(0, orig.len() as int));
}

/// Creates and initializes a transmit descriptor queue: allocates a
/// descriptor array of `num_desc` records, initializes every record to its
/// idle state with no buffer attached, and programs the transmit registers
/// with the array's physical address (split into 32-bit halves), the ring
/// length in bytes, and head and tail indices of zero.
///
/// On failure the underlying allocation error is returned unchanged and the
/// registers are left untouched. Failure can only come from the mapper:
/// while the mapper's budget covers the ring's page-rounded byte size, the
/// call succeeds — in particular, a zero-length ring always succeeds.
pub fn init_tx_queue<T: TxDescriptor, S: TxQueueRegisters, M: MemoryMapper>(
    num_desc: usize,
    txq_regs: &mut S,
    mapper: &mut M,
) -> (r: Result<DescriptorArray<T>, &'static str>)
    requires
        num_desc * T::record_size_spec() <= u32::MAX as usize,
    ensures
        old(mapper).map_budget() >= page_rounded((num_desc * T::record_size_spec()) as usize)
            ==> r is Ok,
        r is Ok ==> final(mapper).map_budget() >= old(mapper).map_budget() - page_rounded(
            (num_desc * T::record_size_spec()) as usize,
        ),
        r matches Ok(ring) ==> ({
            &&& ring.wf()
            &&& ring@.len() == num_desc
            &&& ring.paddr() % (PAGE_SIZE as u64) == 0
            &&& ring.paddr() % DESCRIPTOR_ALIGNMENT == 0
            &&& forall|i: int| 0 <= i < num_desc ==> (#[trigger] ring@[i]).is_idle()
            &&& final(txq_regs).reg_state() == (TxRegisterValues {
                tdbal: (ring.paddr() & 0xFFFF_FFFF) as u32,
                tdbah: (ring.paddr() >> 32) as u32,
                tdlen: (num_desc * T::record_size_spec()) as u32,
                tdh: 0,
                tdt: 0,
            })
        }),
        r is Err ==> final(txq_regs).reg_state() == old(txq_regs).reg_state(),
{
    let size_in_bytes_of_all_tx_descs = num_desc * T::record_size();

    // Tx descriptors must be 128-byte aligned, which holds because the
    // mapping is aligned to a page boundary.
    let region = match mapper.create_contiguous_mapping(size_in_bytes_of_all_tx_descs, MMIO_FLAGS) {
        Ok(region) => region,
        Err(e) => {
            return Err(e);
        },
    };

    // View the physically-contiguous mapping as a slice of transmit
    // descriptors.
    let mut tx_descs = match DescriptorArray::<T>::from_region(region, num_desc) {
        Ok(arr) => arr,
        Err((_region, e)) => {
            return Err(e);
        },
    };

    let ghost ring_paddr = tx_descs.paddr();
    let ghost ring_region_size = tx_descs.region_size();

    // Initialize every descriptor to its idle state.
    for i in 0..num_desc
        invariant
            tx_descs@.len() == num_desc,
            tx_descs.paddr() == ring_paddr,
            tx_descs.region_size() == ring_region_size,
            tx_descs.wf(),
            forall|j: int| 0 <= j < i ==> (#[trigger] tx_descs@[j]).is_idle(),
            txq_regs.reg_state() == old(txq_regs).reg_state(),
            mapper.map_budget() >= old(mapper).map_budget() - page_rounded(
                (num_desc * T::record_size_spec()) as usize,
            ),
    {
        let mut rec = T::zeroed();
        rec.init();
        tx_descs.records.set(i, rec);
    }

    let paddr = tx_descs.phys_addr();
    proof {
        lemma_page_aligned_is_descriptor_aligned(paddr);
        assert((paddr & 0xFFFF_FFFF) <= 0xFFFF_FFFF) by (bit_vector);
        assert((paddr >> 32) <= 0xFFFF_FFFF) by (bit_vector);
    }
    let tx_desc_phys_addr_lower = (paddr & 0xFFFF_FFFF) as u32;
    let tx_desc_phys_addr_higher = (paddr >> 32) as u32;

    // Write the physical address of the tx descs array, then the length in
    // bytes of the array, then head and tail indices of zero: there are no
    // transmit requests yet.
    txq_regs.set_tdbal(tx_desc_phys_addr_lower);
    txq_regs.set_tdbah(tx_desc_phys_addr_higher);
    txq_regs.set_tdlen(size_in_bytes_of_all_tx_descs as u32);
    txq_regs.set_tdh(0);
    txq_regs.set_tdt(0);

    Ok(tx_descs)
}

} // verus!
