//! Receive buffers: owned handles to physically-contiguous, device-mapped
//! regions of a fixed recorded size, identified to the hardware by their
//! physical base address.

use vstd::prelude::*;

use crate::mem::MappedRegion;

verus! {

/// The abstract value of a [`ReceiveBuffer`]: the physical base address and
/// byte size of the region it owns, and the buffer's recorded length.
pub struct BufView {
    /// Physical base address of the owned region.
    pub paddr: u64,
    /// Size in bytes of the owned region.
    pub region_size: usize,
    /// The length recorded for the buffer: how many bytes of the region the
    /// device may fill.
    pub len: u16,
}

impl BufView {
    /// A buffer is well formed when its owned region is large enough for its
    /// recorded length.
    pub open spec fn wf(self) -> bool {
        self.len as usize <= self.region_size
    }
}

/// The buffers' physical addresses are pairwise distinct and all lie below
/// `frontier`. When the buffers in a pool satisfy this for a mapper's
/// frontier, they can never collide with a region that mapper hands out
/// later, so buffers drawn from the pool and freshly mapped buffers stay
/// pairwise distinct.
pub open spec fn distinct_below(buffers: Seq<BufView>, frontier: int) -> bool {
    &&& forall|i: int, j: int|
        0 <= i < j < buffers.len() ==> buffers[i].paddr != buffers[j].paddr
    &&& forall|i: int| 0 <= i < buffers.len() ==> (#[trigger] buffers[i]).paddr < frontier
}

/// A set of distinct buffers below a frontier stays distinct below any
/// wider frontier.
pub proof fn lemma_distinct_below_widen(buffers: Seq<BufView>, f0: int, f1: int)
    requires
        distinct_below(buffers, f0),
        f0 <= f1,
    ensures
        distinct_below(buffers, f1),
{
}

/// Appending a buffer placed at or above the old frontier keeps the buffers
/// distinct: everything already present lies below the old frontier, and the
/// new buffer lies between the old frontier and the new one.
pub proof fn lemma_distinct_below_push(buffers: Seq<BufView>, v: BufView, f0: int, f1: int)
    requires
        distinct_below(buffers, f0),
        f0 <= v.paddr,
        v.paddr < f1,
        f0 <= f1,
    ensures
        distinct_below(buffers.push(v), f1),
{
    let pushed = buffers.push(v);
    assert forall|i: int| 0 <= i < pushed.len() implies (#[trigger] pushed[i]).paddr < f1 by {
        if i < buffers.len() {
            assert(buffers[i].paddr < f0);
        }
    }
    assert forall|i: int, j: int| 0 <= i < j < pushed.len() implies pushed[i].paddr
        != pushed[j].paddr by {
        if j == buffers.len() {
            assert(buffers[i].paddr < f0);
        }
    }
}

/// Appending a buffer below the frontier whose address differs from every
/// buffer already present keeps the buffers distinct below the frontier.
pub proof fn lemma_distinct_below_push_distinct(buffers: Seq<BufView>, v: BufView, f: int)
    requires
        distinct_below(buffers, f),
        v.paddr < f,
        forall|i: int| 0 <= i < buffers.len() ==> (#[trigger] buffers[i]).paddr != v.paddr,
    ensures
        distinct_below(buffers.push(v), f),
{
    let pushed = buffers.push(v);
    assert forall|i: int, j: int| 0 <= i < j < pushed.len() implies pushed[i].paddr
        != pushed[j].paddr by {
        if j == buffers.len() {
            assert(buffers[i].paddr != v.paddr);
        }
    }
}

/// An owned handle to one physically-contiguous, device-mapped memory region
/// of a fixed size. The physical address is stable for the buffer's entire
/// lifetime: the handle never remaps its region.
///
/// Buffers are drawn from a [`crate::pool::BufferPool`] when available and
/// freshly allocated otherwise; releasing one pushes it back onto the pool it
/// was drawn for rather than freeing it.
#[derive(Debug)]
pub struct ReceiveBuffer {
    region: MappedRegion,
    length: u16,
}

impl View for ReceiveBuffer {
    type V = BufView;

    closed spec fn view(&self) -> BufView {
        BufView { paddr: self.region.paddr(), region_size: self.region.size(), len: self.length }
    }
}

impl ReceiveBuffer {
    /// Well-formedness of the handle itself; see [`BufView::wf`].
    pub open spec fn wf(self) -> bool {
        self@.wf()
    }

    /// Wraps a mapped region as a receive buffer with the given recorded
    /// length. Fails, handing the region back, when the region is too small
    /// to hold `length` bytes.
    pub fn new(region: MappedRegion, length: u16) -> (r: Result<ReceiveBuffer, (MappedRegion, &'static str)>)
        ensures
            length as usize <= region.size() ==> (r matches Ok(b) && b@ == (BufView {
                paddr: region.paddr(),
                region_size: region.size(),
                len: length,
            }) && b.wf()),
            length as usize > region.size() ==> (r matches Err(p) && p.0 == region),
    {
        if (length as usize) > region.size_in_bytes() {
            Err((region, "mapped region too small for receive buffer"))
        } else {
            Ok(ReceiveBuffer { region, length })
        }
    }

    /// The physical base address of the buffer's region.
    pub fn phys_addr(&self) -> (r: u64)
        ensures
            r == self@.paddr,
    {
        self.region.phys_addr()
    }

    /// The recorded length of the buffer in bytes.
    pub fn length(&self) -> (r: u16)
        ensures
            r == self@.len,
    {
        self.length
    }

    /// The size in bytes of the whole owned region.
    pub fn region_size_in_bytes(&self) -> (r: usize)
        ensures
            r == self@.region_size,
    {
        self.region.size_in_bytes()
    }
}

} // verus!
