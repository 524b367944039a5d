//! Heap backing: maps the fixed virtual heap window and hands it to the
//! dynamic allocator exactly once.
//!
//! The window [`HEAP_START`, `HEAP_START + HEAP_SIZE`) is backed page by
//! page through the mapper, one fresh frame per page, and only then claimed.
//! A mapping failure before the claim leaves the heap unclaimed: no partial
//! claim ever reaches the allocator.

use vstd::prelude::*;
use crate::paging::MapError;
use crate::paging::PageAllocator;
use crate::paging::PageTableFlags;

verus! {

/// Start of the virtual heap window; the distinctive value makes heap
/// addresses easy to recognize in diagnostics.
pub const HEAP_START: u64 = 0xC444_4444_0000;

/// Size of the virtual heap window: 8 MiB.
pub const HEAP_SIZE: u64 = 8 * 1024 * 1024;

/// The dynamic allocator's bookkeeping for the one claim it ever receives,
/// with a bump cursor standing in for its internal free structures.
pub struct KernelHeap {
    pub claimed: Option<(u64, u64)>,
    pub cursor: u64,
}

impl KernelHeap {
    pub open spec fn wf(self) -> bool {
        match self.claimed {
            Some((base, size)) => base + size <= u64::MAX && base <= self.cursor <= base + size,
            None => true,
        }
    }

    /// An allocator that has not been given any memory yet.
    pub fn new() -> (r: Self)
        ensures
            r.claimed is None,
            r.wf(),
    {
        KernelHeap { claimed: None, cursor: 0 }
    }

    /// Registers the single span the allocator may serve from.  The caller
    /// must have backed the whole span first; nothing here checks that,
    /// which is why `init` only claims after `map_range` succeeded.
    pub fn claim(&mut self, base: u64, size: u64)
        requires
            old(self).claimed is None,
            base + size <= u64::MAX,
        ensures
            final(self).claimed == Some((base, size)),
            final(self).cursor == base,
            final(self).wf(),
    {
        self.claimed = Some((base, size));
        self.cursor = base;
    }

    /// Serves `size` bytes from the claimed span, or nothing if no claim
    /// was made or the span is exhausted.  Every address served lies inside
    /// the claimed span.
    pub fn allocate(&mut self, size: u64) -> (r: Option<u64>)
        requires
            old(self).wf(),
        ensures
            final(self).wf(),
            final(self).claimed == old(self).claimed,
            match r {
                Some(addr) => {
                    &&& old(self).claimed matches Some((base, span)) && base <= addr && addr + size
                        <= base + span
                    &&& addr == old(self).cursor
                    &&& final(self).cursor == addr + size
                },
                None => {
                    &&& final(self).cursor == old(self).cursor
                    &&& (old(self).claimed matches Some((base, span)) ==> old(self).cursor + size
                        > base + span)
                },
            },
    {
        match self.claimed {
            None => None,
            Some((base, span)) => {
                if size <= span && self.cursor <= base + (span - size) {
                    let addr = self.cursor;
                    self.cursor = addr + size;
                    Some(addr)
                } else {
                    None
                }
            },
        }
    }
}

/// Backs the heap window and registers it with the allocator, in that
/// order.  On success the whole window is mapped present and writable and
/// the claim covers exactly [`HEAP_START`, `HEAP_START + HEAP_SIZE`); on
/// failure the heap stays unclaimed, which the boot path treats as fatal.
pub fn init(page_allocator: &mut PageAllocator, heap: &mut KernelHeap) -> (r: Result<
    (),
    MapError,
>)
    requires
        old(page_allocator).wf(),
        old(heap).claimed is None,
        old(page_allocator).frame_allocator_4kib.next + 4 * ((HEAP_SIZE / 4096) as int) + 4
            <= usize::MAX,
    ensures
        final(page_allocator).wf(),
        final(page_allocator).physical_memory_offset == old(page_allocator).physical_memory_offset,
        final(page_allocator).frame_allocator_4kib.memory_map@ == old(
            page_allocator,
        ).frame_allocator_4kib.memory_map@,
        forall|q: u64|
            #[trigger] old(page_allocator).view().contains_key(q)
                ==> final(page_allocator).view().contains_key(q)
                && final(page_allocator).view()[q] == old(page_allocator).view()[q],
        match r {
            Ok(()) => {
                &&& forall|p: u64|
                    HEAP_START <= p < HEAP_START + HEAP_SIZE && p % 4096 == 0
                        ==> #[trigger] final(page_allocator).view().contains_key(p)
                        && final(page_allocator).view()[p].flags == (PageTableFlags {
                        present: true,
                        writable: true,
                    })
                &&& final(heap).claimed == Some((HEAP_START, HEAP_SIZE))
                &&& final(heap).cursor == HEAP_START
                &&& final(heap).wf()
            },
            Err(e) => {
                &&& *final(heap) == *old(heap)
                &&& exists|k: int|
                    #[trigger] crate::paging::mapped_prefix(
                        old(page_allocator).view(),
                        final(page_allocator).view(),
                        HEAP_START,
                        (HEAP_SIZE / 4096) as int,
                        k,
                        PageTableFlags { present: true, writable: true },
                    )
                &&& (e == MapError::FrameAllocationFailed
                    ==> final(page_allocator).remaining_frames() == 0 && old(
                    page_allocator,
                ).remaining_frames() <= 4 * ((HEAP_SIZE / 4096) as int))
                &&& (e == MapError::PageAlreadyMapped ==> exists|p: u64|
                    HEAP_START <= p < HEAP_START + HEAP_SIZE && p % 4096 == 0 && old(
                        page_allocator,
                    ).view().contains_key(p))
            },
        },
        (forall|p: u64|
            HEAP_START <= p < HEAP_START + HEAP_SIZE && p % 4096 == 0 ==> !old(
                page_allocator,
            ).view().contains_key(p)) && old(page_allocator).remaining_frames() > 4 * ((HEAP_SIZE
            / 4096) as int) ==> r is Ok,
        (forall|p: u64|
            HEAP_START <= p < HEAP_START + HEAP_SIZE && p % 4096 == 0 ==> crate::paging::missing_tables(
                old(page_allocator).root@,
                p,
            ) == 0 && !old(page_allocator).view().contains_key(p)) ==> {
            let n = (HEAP_SIZE / 4096) as nat;
            let next0 = old(page_allocator).frame_allocator_4kib.next as nat;
            match r {
                Ok(()) => n <= old(page_allocator).remaining_frames()
                    && final(page_allocator).frame_allocator_4kib.next == next0 + n,
                Err(MapError::PageAlreadyMapped) => false,
                Err(MapError::FrameAllocationFailed) => old(page_allocator).remaining_frames() < n
                    && final(page_allocator).frame_allocator_4kib.next == next0 + old(
                    page_allocator,
                ).remaining_frames() + 1,
            }
        },
{
    let flags = PageTableFlags { present: true, writable: true };
    match page_allocator.map_range(HEAP_START, HEAP_START + HEAP_SIZE, flags) {
        Ok(()) => (),
        Err(e) => {
            return Err(e);
        },
    }
    heap.claim(HEAP_START, HEAP_SIZE);
    Ok(())
}

} // verus!
