//! The four-level virtual-to-physical page mapping.
//!
//! The hardware walks a tree of 512-entry tables; intermediate levels are
//! created on demand, each backed by a fresh frame from the frame allocator.
//! The tree here is owned data, so the walk, the on-demand table creation
//! and the "reject an already-mapped page" policy are all checked; loading
//! the root into the hardware register and invalidating cached translations
//! stay outside the crate.

use vstd::prelude::*;
use crate::memory::FrameAllocator4KiB;
use crate::memory::FRAME_SIZE;

verus! {

/// Number of entries in a table at every level.
pub const ENTRY_COUNT: usize = 512;

/// Bytes covered by one level-2 entry (one whole level-1 table).
pub const L2_SPAN: u64 = 4096 * 512;

/// Bytes covered by one level-3 entry.
pub const L3_SPAN: u64 = 4096 * 512 * 512;

/// Bytes covered by one level-4 entry.
pub const L4_SPAN: u64 = 4096 * 512 * 512 * 512;

/// One page past the highest virtual address the four levels can reach.
pub const ADDRESS_SPACE_END: u64 = 0x1_0000_0000_0000;

/// Access flags carried by a final page-table entry.
#[derive(Clone, Copy, PartialEq, Eq, Structural, Debug)]
pub struct PageTableFlags {
    pub present: bool,
    pub writable: bool,
}

/// A failure while installing a mapping.
#[derive(Clone, Copy, PartialEq, Eq, Structural, Debug)]
pub enum MapError {
    /// The frame allocator ran out of usable frames.
    FrameAllocationFailed,
    /// The page already had a binding; it is never silently overwritten.
    PageAlreadyMapped,
}

/// A page's binding: the backing frame and its access flags.
#[derive(Clone, Copy, PartialEq, Eq, Structural, Debug)]
pub struct PageMapping {
    pub frame: u64,
    pub flags: PageTableFlags,
}

/// A level-1 table: 512 final entries, backed by `frame`.
#[derive(Clone, Debug)]
pub struct TableL1 {
    pub frame: u64,
    pub entries: Vec<Option<PageMapping>>,
}

/// A level-2 table: 512 entries each optionally pointing at a level-1 table.
#[derive(Clone, Debug)]
pub struct TableL2 {
    pub frame: u64,
    pub entries: Vec<Option<TableL1>>,
}

/// A level-3 table: 512 entries each optionally pointing at a level-2 table.
#[derive(Clone, Debug)]
pub struct TableL3 {
    pub frame: u64,
    pub entries: Vec<Option<TableL2>>,
}

/// A virtual address is a page base the four levels can bind.
pub open spec fn page_addr_wf(p: u64) -> bool {
    &&& p % 4096 == 0
    &&& p < ADDRESS_SPACE_END
}

pub open spec fn l1_index(p: u64) -> int {
    ((p / 4096) % 512) as int
}

pub open spec fn l2_index(p: u64) -> int {
    ((p / L2_SPAN) % 512) as int
}

pub open spec fn l3_index(p: u64) -> int {
    ((p / L3_SPAN) % 512) as int
}

pub open spec fn l4_index(p: u64) -> int {
    ((p / L4_SPAN) % 512) as int
}

/// Two page addresses with the same four indices are the same address.
pub proof fn lemma_indices_determine_page(p: u64, q: u64)
    requires
        page_addr_wf(p),
        page_addr_wf(q),
        l1_index(p) == l1_index(q),
        l2_index(p) == l2_index(q),
        l3_index(p) == l3_index(q),
        l4_index(p) == l4_index(q),
    ensures
        p == q,
{
    assert(p == q) by (bit_vector)
        requires
            p % 4096 == 0,
            q % 4096 == 0,
            p < 0x1_0000_0000_0000,
            q < 0x1_0000_0000_0000,
            (p / 4096) % 512 == (q / 4096) % 512,
            (p / 2097152) % 512 == (q / 2097152) % 512,
            (p / 1073741824) % 512 == (q / 1073741824) % 512,
            (p / 549755813888) % 512 == (q / 549755813888) % 512,
    ;
}

pub open spec fn l1_wf(t: TableL1) -> bool {
    t.entries@.len() == 512
}

pub open spec fn l2_wf(t: TableL2) -> bool {
    &&& t.entries@.len() == 512
    &&& forall|i: int|
        0 <= i < 512 ==> (#[trigger] t.entries@[i] matches Some(t1) ==> l1_wf(t1))
}

pub open spec fn l3_wf(t: TableL3) -> bool {
    &&& t.entries@.len() == 512
    &&& forall|i: int|
        0 <= i < 512 ==> (#[trigger] t.entries@[i] matches Some(t2) ==> l2_wf(t2))
}

pub open spec fn root_wf(root: Seq<Option<TableL3>>) -> bool {
    &&& root.len() == 512
    &&& forall|i: int| 0 <= i < 512 ==> (#[trigger] root[i] matches Some(t3) ==> l3_wf(t3))
}

/// What a level-1 table binds `p` to.
pub open spec fn l1_resolve(t: TableL1, p: u64) -> Option<PageMapping> {
    t.entries@[l1_index(p)]
}

pub open spec fn l2_resolve(t: TableL2, p: u64) -> Option<PageMapping> {
    match t.entries@[l2_index(p)] {
        Some(t1) => l1_resolve(t1, p),
        None => None,
    }
}

pub open spec fn l3_resolve(t: TableL3, p: u64) -> Option<PageMapping> {
    match t.entries@[l3_index(p)] {
        Some(t2) => l2_resolve(t2, p),
        None => None,
    }
}

/// What the whole hierarchy binds `p` to.
pub open spec fn root_resolve(root: Seq<Option<TableL3>>, p: u64) -> Option<PageMapping> {
    match root[l4_index(p)] {
        Some(t3) => l3_resolve(t3, p),
        None => None,
    }
}

/// The virtual-to-physical bindings installed in the hierarchy, as a map
/// from page base address to its binding.
pub open spec fn mappings_of(root: Seq<Option<TableL3>>) -> Map<u64, PageMapping> {
    Map::new(
        |p: u64| page_addr_wf(p) && root_resolve(root, p) is Some,
        |p: u64| root_resolve(root, p).unwrap(),
    )
}

/// Whether the walk to `p` still needs a level-1 table below this level-2
/// table (1) or finds one in place (0).
pub open spec fn missing_below_l2(t: TableL2, p: u64) -> nat {
    match t.entries@[l2_index(p)] {
        None => 1,
        Some(_) => 0,
    }
}

/// How many tables the walk to `p` still needs below this level-3 table.
pub open spec fn missing_below_l3(t: TableL3, p: u64) -> nat {
    match t.entries@[l3_index(p)] {
        None => 2,
        Some(t2) => missing_below_l2(t2, p),
    }
}

/// How many intermediate tables the walk to `p` still has to create.
pub open spec fn missing_tables(root: Seq<Option<TableL3>>, p: u64) -> nat {
    match root[l4_index(p)] {
        None => 3,
        Some(t3) => missing_below_l3(t3, p),
    }
}

/// Whether `f` is one of the allocator's frames with index in [`lo`, `hi`):
/// a frame issued during, not before, the call window those bounds mark.
pub open spec fn frame_from(fs: Seq<u64>, lo: int, hi: int, f: u64) -> bool {
    exists|k: int| lo <= k <= hi - 1 && f == #[trigger] fs[k]
}

/// The shape a range mapping leaves on failure: the first `k` pages of the
/// range were freshly bound with `flags`, and the pages after them are
/// exactly as they were.
pub open spec fn mapped_prefix(
    v0: Map<u64, PageMapping>,
    v1: Map<u64, PageMapping>,
    start: u64,
    n: int,
    k: int,
    flags: PageTableFlags,
) -> bool {
    &&& 0 <= k <= n
    &&& forall|j: int|
        0 <= j < k ==> !v0.contains_key((start + j * 4096) as u64) && #[trigger] v1.contains_key(
            (start + j * 4096) as u64,
        ) && v1[(start + j * 4096) as u64].flags == flags
    &&& forall|j: int|
        k <= j < n ==> (#[trigger] v1.contains_key((start + j * 4096) as u64)
            <==> v0.contains_key((start + j * 4096) as u64))
}

/// A vector of 512 empty entries, the state of a freshly allocated table.
fn new_empty_entries<T>() -> (r: Vec<Option<T>>)
    ensures
        r@.len() == 512,
        forall|i: int| 0 <= i < 512 ==> (#[trigger] r@[i]) is None,
{
    let mut v: Vec<Option<T>> = Vec::new();
    let mut i: usize = 0;
    while i < ENTRY_COUNT
        invariant
            i == v@.len(),
            0 <= i <= 512,
            forall|j: int| 0 <= j < i ==> (#[trigger] v@[j]) is None,
        decreases 512 - i,
    {
        v.push(None);
        i = i + 1;
    }
    v
}

/// Installs the final entry for `page` in a level-1 table.
fn map_in_l1(t1: &mut TableL1, page: u64, frame: u64, flags: PageTableFlags) -> (r: Result<
    (),
    MapError,
>)
    requires
        l1_wf(*old(t1)),
        page_addr_wf(page),
    ensures
        l1_wf(*final(t1)),
        final(t1).frame == old(t1).frame,
        match r {
            Ok(()) => {
                &&& l1_resolve(*old(t1), page) is None
                &&& final(t1).entries@ == old(t1).entries@.update(
                    l1_index(page),
                    Some(PageMapping { frame, flags }),
                )
            },
            Err(e) => {
                &&& e == MapError::PageAlreadyMapped
                &&& l1_resolve(*old(t1), page) is Some
                &&& *final(t1) == *old(t1)
            },
        },
{
    let i1 = ((page / 4096) % 512) as usize;
    if t1.entries[i1].is_some() {
        return Err(MapError::PageAlreadyMapped);
    }
    t1.entries[i1] = Some(PageMapping { frame, flags });
    Ok(())
}

/// Walks one level-2 table for `page`, creating the level-1 table below it
/// if it is missing.
fn map_in_l2(
    t2: &mut TableL2,
    fa: &mut FrameAllocator4KiB,
    page: u64,
    frame: u64,
    flags: PageTableFlags,
) -> (r: Result<(), MapError>)
    requires
        l2_wf(*old(t2)),
        old(fa).wf(),
        old(fa).next + 1 < usize::MAX,
        page_addr_wf(page),
    ensures
        l2_wf(*final(t2)),
        final(t2).frame == old(t2).frame,
        final(fa).wf(),
        final(fa).memory_map@ == old(fa).memory_map@,
        forall|q: u64|
            page_addr_wf(q) && !(l2_index(q) == l2_index(page) && l1_index(q) == l1_index(page))
                ==> l2_resolve(*final(t2), q) == l2_resolve(*old(t2), q),
        forall|q: u64|
            page_addr_wf(q) ==> missing_below_l2(*final(t2), q) <= missing_below_l2(*old(t2), q),
        match r {
            Ok(()) => {
                &&& l2_resolve(*old(t2), page) is None
                &&& l2_resolve(*final(t2), page) == Some(PageMapping { frame, flags })
                &&& missing_below_l2(*old(t2), page) <= old(fa).remaining()
                &&& final(fa).next == old(fa).next + missing_below_l2(*old(t2), page)
            },
            Err(MapError::PageAlreadyMapped) => {
                &&& l2_resolve(*old(t2), page) is Some
                &&& l2_resolve(*final(t2), page) == l2_resolve(*old(t2), page)
                &&& *final(fa) == *old(fa)
            },
            Err(MapError::FrameAllocationFailed) => {
                &&& l2_resolve(*old(t2), page) is None
                &&& l2_resolve(*final(t2), page) is None
                &&& old(fa).remaining() < missing_below_l2(*old(t2), page)
                &&& *final(t2) == *old(t2)
                &&& final(fa).next == old(fa).next + old(fa).remaining() + 1
            },
        },
{
    let i2 = ((page / L2_SPAN) % 512) as usize;
    proof {
        assert(i2 == l2_index(page));
    }
    if t2.entries[i2].is_none() {
        match fa.allocate_frame() {
            None => {
                return Err(MapError::FrameAllocationFailed);
            },
            Some(table_frame) => {
                let t1 = TableL1 { frame: table_frame, entries: new_empty_entries() };
                t2.entries[i2] = Some(t1);
            },
        }
    }
    match &mut t2.entries[i2] {
        Some(t1) => map_in_l1(t1, page, frame, flags),
        None => {
            proof {
                assert(false);
            }
            Err(MapError::PageAlreadyMapped)
        },
    }
}

/// Walks one level-3 table for `page`, creating the tables below it as
/// needed.
fn map_in_l3(
    t3: &mut TableL3,
    fa: &mut FrameAllocator4KiB,
    page: u64,
    frame: u64,
    flags: PageTableFlags,
) -> (r: Result<(), MapError>)
    requires
        l3_wf(*old(t3)),
        old(fa).wf(),
        old(fa).next + 2 < usize::MAX,
        page_addr_wf(page),
    ensures
        l3_wf(*final(t3)),
        final(t3).frame == old(t3).frame,
        final(fa).wf(),
        final(fa).memory_map@ == old(fa).memory_map@,
        forall|q: u64|
            page_addr_wf(q) && !(l3_index(q) == l3_index(page) && l2_index(q) == l2_index(page)
                && l1_index(q) == l1_index(page)) ==> l3_resolve(*final(t3), q) == l3_resolve(
                *old(t3),
                q,
            ),
        forall|q: u64|
            page_addr_wf(q) ==> missing_below_l3(*final(t3), q) <= missing_below_l3(*old(t3), q),
        match r {
            Ok(()) => {
                &&& l3_resolve(*old(t3), page) is None
                &&& l3_resolve(*final(t3), page) == Some(PageMapping { frame, flags })
                &&& missing_below_l3(*old(t3), page) <= old(fa).remaining()
                &&& final(fa).next == old(fa).next + missing_below_l3(*old(t3), page)
            },
            Err(MapError::PageAlreadyMapped) => {
                &&& l3_resolve(*old(t3), page) is Some
                &&& l3_resolve(*final(t3), page) == l3_resolve(*old(t3), page)
                &&& *final(fa) == *old(fa)
            },
            Err(MapError::FrameAllocationFailed) => {
                &&& l3_resolve(*old(t3), page) is None
                &&& l3_resolve(*final(t3), page) is None
                &&& old(fa).remaining() < missing_below_l3(*old(t3), page)
                &&& final(fa).next == old(fa).next + old(fa).remaining() + 1
            },
        },
{
    let i3 = ((page / L3_SPAN) % 512) as usize;
    proof {
        assert(i3 == l3_index(page));
    }
    if t3.entries[i3].is_none() {
        match fa.allocate_frame() {
            None => {
                return Err(MapError::FrameAllocationFailed);
            },
            Some(table_frame) => {
                let t2 = TableL2 { frame: table_frame, entries: new_empty_entries() };
                t3.entries[i3] = Some(t2);
            },
        }
    }
    match &mut t3.entries[i3] {
        Some(t2) => map_in_l2(t2, fa, page, frame, flags),
        None => {
            proof {
                assert(false);
            }
            Err(MapError::PageAlreadyMapped)
        },
    }
}

/// Owns the mapping hierarchy and the frame allocator that backs it, as the
/// boot path constructs them together.  Exactly one instance exists for the
/// life of the process: construction consumes the firmware memory map, so a
/// second instance cannot arise from the same boot handoff.
pub struct PageAllocator {
    pub root: Vec<Option<TableL3>>,
    pub frame_allocator_4kib: FrameAllocator4KiB,
    pub physical_memory_offset: u64,
}

impl PageAllocator {
    pub open spec fn wf(self) -> bool {
        &&& root_wf(self.root@)
        &&& self.frame_allocator_4kib.wf()
    }

    /// The bindings this mapper has installed.
    pub open spec fn view(self) -> Map<u64, PageMapping> {
        mappings_of(self.root@)
    }

    /// Usable frames the owned allocator has not issued yet.
    pub open spec fn remaining_frames(self) -> nat {
        self.frame_allocator_4kib.remaining()
    }

    /// Builds the mapper over the boot memory map and the linear
    /// physical-to-virtual offset the platform established.  The map is
    /// consumed; no mapping is installed yet.
    pub fn init(memory_map: Vec<crate::memory::MemoryRegion>, physical_memory_offset: u64) -> (r:
        Self)
        ensures
            r.frame_allocator_4kib.memory_map@ == memory_map@,
            r.frame_allocator_4kib.next == 0,
            r.physical_memory_offset == physical_memory_offset,
            r.view() == Map::<u64, PageMapping>::empty(),
            root_wf(r.root@),
            forall|q: u64| page_addr_wf(q) ==> missing_tables(r.root@, q) == 3,
    {
        let root: Vec<Option<TableL3>> = new_empty_entries();
        let r = PageAllocator {
            root,
            frame_allocator_4kib: FrameAllocator4KiB::new(memory_map),
            physical_memory_offset,
        };
        proof {
            assert forall|q: u64| page_addr_wf(q) implies root_resolve(r.root@, q) is None by {
                assert(0 <= l4_index(q) < 512) by (nonlinear_arith);
            }
            assert forall|q: u64| page_addr_wf(q) implies missing_tables(r.root@, q) == 3 by {
                assert(0 <= l4_index(q) < 512) by (nonlinear_arith);
            }
            assert(mappings_of(r.root@) =~= Map::<u64, PageMapping>::empty());
        }
        r
    }

    /// Installs `page -> frame` with `flags`, creating intermediate tables
    /// on demand from the owned frame allocator.
    ///
    /// A page that already has a binding is rejected with
    /// `PageAlreadyMapped` and nothing changes: mapping the same page twice
    /// without an intervening unmap always fails on the second call,
    /// whatever the flags.  `FrameAllocationFailed` comes exactly when the
    /// allocator cannot cover the missing intermediate tables; the visible
    /// bindings are unchanged then too.
    pub fn map(&mut self, page: u64, frame: u64, flags: PageTableFlags) -> (r: Result<
        (),
        MapError,
    >)
        requires
            old(self).wf(),
            page_addr_wf(page),
            old(self).frame_allocator_4kib.next + 3 < usize::MAX,
        ensures
            final(self).wf(),
            final(self).physical_memory_offset == old(self).physical_memory_offset,
            final(self).frame_allocator_4kib.memory_map@ == old(
                self,
            ).frame_allocator_4kib.memory_map@,
            forall|q: u64|
                page_addr_wf(q) ==> missing_tables(final(self).root@, q) <= missing_tables(
                    old(self).root@,
                    q,
                ),
            match r {
                Ok(()) => {
                    &&& !old(self).view().contains_key(page)
                    &&& final(self).view() == old(self).view().insert(
                        page,
                        PageMapping { frame, flags },
                    )
                    &&& missing_tables(old(self).root@, page) <= old(self).remaining_frames()
                    &&& final(self).frame_allocator_4kib.next == old(
                        self,
                    ).frame_allocator_4kib.next + missing_tables(old(self).root@, page)
                },
                Err(MapError::PageAlreadyMapped) => {
                    &&& old(self).view().contains_key(page)
                    &&& final(self).view() == old(self).view()
                    &&& final(self).frame_allocator_4kib == old(self).frame_allocator_4kib
                },
                Err(MapError::FrameAllocationFailed) => {
                    &&& !old(self).view().contains_key(page)
                    &&& old(self).remaining_frames() < missing_tables(old(self).root@, page)
                    &&& final(self).view() == old(self).view()
                    &&& final(self).frame_allocator_4kib.next == old(
                        self,
                    ).frame_allocator_4kib.next + old(self).remaining_frames() + 1
                },
            },
    {
        let i4 = ((page / L4_SPAN) % 512) as usize;
        proof {
            assert(i4 == l4_index(page));
            assert(0 <= l4_index(page) < 512) by (nonlinear_arith);
        }
        let ghost root0 = self.root@;
        if self.root[i4].is_none() {
            match self.frame_allocator_4kib.allocate_frame() {
                None => {
                    return Err(MapError::FrameAllocationFailed);
                },
                Some(table_frame) => {
                    let t3 = TableL3 { frame: table_frame, entries: new_empty_entries() };
                    self.root[i4] = Some(t3);
                },
            }
        }
        let ghost root1 = self.root@;
        let ghost fa1 = self.frame_allocator_4kib;
        let r = match &mut self.root[i4] {
            Some(t3) => map_in_l3(t3, &mut self.frame_allocator_4kib, page, frame, flags),
            None => {
                proof {
                    assert(false);
                }
                Err(MapError::PageAlreadyMapped)
            },
        };
        proof {
            let rootf = self.root@;
            // Entries at other level-4 slots were never touched.
            assert(forall|i: int| 0 <= i < 512 && i != l4_index(page) ==> rootf[i] == root0[i]);
            // Resolution for any other page is unchanged.
            assert forall|q: u64| page_addr_wf(q) && q != page implies root_resolve(rootf, q)
                == root_resolve(root0, q) by {
                assert(0 <= l4_index(q) < 512) by (nonlinear_arith);
                if l4_index(q) == l4_index(page) {
                    if l3_index(q) == l3_index(page) && l2_index(q) == l2_index(page) && l1_index(
                        q,
                    ) == l1_index(page) {
                        lemma_indices_determine_page(page, q);
                    }
                    if root0[l4_index(page)] is None {
                        assert(root_resolve(root0, q) is None);
                        assert(root1[l4_index(page)] matches Some(t3) ==> l3_resolve(t3, q)
                            is None);
                    }
                }
            }
            assert forall|q: u64| page_addr_wf(q) implies missing_tables(rootf, q)
                <= missing_tables(root0, q) by {
                assert(0 <= l4_index(q) < 512) by (nonlinear_arith);
            }
            match r {
                Ok(()) => {
                    assert(root_resolve(root0, page) is None);
                    assert(root_resolve(rootf, page) == Some(PageMapping { frame, flags }));
                    assert(mappings_of(rootf) =~= mappings_of(root0).insert(
                        page,
                        PageMapping { frame, flags },
                    ));
                },
                Err(MapError::PageAlreadyMapped) => {
                    assert(root_resolve(rootf, page) == root_resolve(root0, page));
                    assert(mappings_of(rootf) =~= mappings_of(root0));
                },
                Err(MapError::FrameAllocationFailed) => {
                    assert(root_resolve(rootf, page) is None);
                    assert(root_resolve(root0, page) is None);
                    assert(mappings_of(rootf) =~= mappings_of(root0));
                },
            }
        }
        r
    }

    /// Maps every page of [`start`, `end`), requesting one fresh frame per
    /// page from the owned allocator, stopping at the first failure and
    /// leaving the range partially mapped (no rollback).
    ///
    /// When every walk finds its intermediate tables in place and no page of
    /// the range is mapped yet, the call consumes exactly one frame per page:
    /// on success the allocator advances by exactly `n` and the `i`-th page
    /// is bound to the `i`-th frame it would have handed out; on exhaustion
    /// exactly as many frames are consumed as pages were mapped before the
    /// failing page.
    #[verifier::rlimit(80)]
    pub fn map_range(&mut self, start: u64, end: u64, flags: PageTableFlags) -> (r: Result<
        (),
        MapError,
    >)
        requires
            old(self).wf(),
            start % 4096 == 0,
            end % 4096 == 0,
            start <= end,
            end <= ADDRESS_SPACE_END,
            old(self).frame_allocator_4kib.next + 4 * ((end - start) / 4096) + 4 <= usize::MAX,
        ensures
            final(self).wf(),
            final(self).physical_memory_offset == old(self).physical_memory_offset,
            final(self).frame_allocator_4kib.memory_map@ == old(
                self,
            ).frame_allocator_4kib.memory_map@,
            forall|q: u64|
                page_addr_wf(q) ==> missing_tables(final(self).root@, q) <= missing_tables(
                    old(self).root@,
                    q,
                ),
            forall|q: u64|
                page_addr_wf(q) && !(start <= q < end) ==> (final(self).view().contains_key(q)
                    <==> old(self).view().contains_key(q)) && (old(self).view().contains_key(q)
                    ==> final(self).view()[q] == old(self).view()[q]),
            forall|q: u64|
                #[trigger] old(self).view().contains_key(q) ==> final(self).view().contains_key(q)
                    && final(self).view()[q] == old(self).view()[q],
            match r {
                Ok(()) => forall|p: u64|
                    start <= p < end && p % 4096 == 0 ==> !old(self).view().contains_key(p)
                        && #[trigger] final(self).view().contains_key(p)
                        && final(self).view()[p].flags == flags,
                Err(MapError::PageAlreadyMapped) => exists|p: u64|
                    start <= p < end && p % 4096 == 0 && old(self).view().contains_key(p),
                Err(MapError::FrameAllocationFailed) => final(self).remaining_frames() == 0
                    && old(self).remaining_frames() <= 4 * ((end - start) / 4096),
            },
            r is Err ==> exists|k: int|
                #[trigger] mapped_prefix(
                    old(self).view(),
                    final(self).view(),
                    start,
                    (end - start) / 4096,
                    k,
                    flags,
                ),
            r is Ok ==> {
                let fs = old(self).frame_allocator_4kib.frames();
                let next0 = old(self).frame_allocator_4kib.next as int;
                let nextf = final(self).frame_allocator_4kib.next as int;
                &&& forall|p: u64|
                    start <= p < end && p % 4096 == 0 ==> frame_from(
                        fs,
                        next0,
                        nextf,
                        (#[trigger] final(self).view()[p]).frame,
                    )
                &&& forall|p1: u64, p2: u64|
                    start <= p1 < end && p1 % 4096 == 0 && start <= p2 < end && p2 % 4096 == 0 && p1
                        != p2 ==> (#[trigger] final(self).view()[p1]).frame != (
                    #[trigger] final(self).view()[p2]).frame
            },
            (forall|p: u64|
                start <= p < end && p % 4096 == 0 ==> missing_tables(old(self).root@, p) == 0
                    && !old(self).view().contains_key(p)) ==> {
                let n = ((end - start) / 4096) as nat;
                let fs = old(self).frame_allocator_4kib.frames();
                let next0 = old(self).frame_allocator_4kib.next as nat;
                match r {
                    Ok(()) => {
                        &&& n <= old(self).remaining_frames()
                        &&& final(self).frame_allocator_4kib.next == next0 + n
                        &&& forall|j: int|
                            0 <= j < n ==> #[trigger] final(self).view()[(start + j * 4096) as u64]
                                == (PageMapping { frame: fs[next0 + j], flags })
                    },
                    Err(MapError::PageAlreadyMapped) => false,
                    Err(MapError::FrameAllocationFailed) => {
                        &&& old(self).remaining_frames() < n
                        &&& final(self).frame_allocator_4kib.next == next0
                            + old(self).remaining_frames() + 1
                        &&& forall|j: int|
                            0 <= j < old(self).remaining_frames() ==> #[trigger] final(self).view()[
                                (start + j * 4096) as u64
                            ] == (PageMapping { frame: fs[next0 + j], flags })
                    },
                }
            },
    {
        let n_pages = (end - start) / FRAME_SIZE;
        let ghost clean = forall|p: u64|
            start <= p < end && p % 4096 == 0 ==> missing_tables(old(self).root@, p) == 0 && !old(
                self,
            ).view().contains_key(p);
        let mut i: u64 = 0;
        while i < n_pages
            invariant
                self.wf(),
                start % 4096 == 0,
                end % 4096 == 0,
                start <= end,
                end <= ADDRESS_SPACE_END,
                n_pages == (end - start) / 4096,
                0 <= i <= n_pages,
                old(self).wf(),
                old(self).frame_allocator_4kib.next + 4 * n_pages + 4 <= usize::MAX,
                self.physical_memory_offset == old(self).physical_memory_offset,
                self.frame_allocator_4kib.memory_map@ == old(self).frame_allocator_4kib.memory_map@,
                old(self).frame_allocator_4kib.next <= self.frame_allocator_4kib.next,
                self.frame_allocator_4kib.next <= old(self).frame_allocator_4kib.next + 4 * i,
                forall|j: int|
                    0 <= j < i ==> frame_from(
                        old(self).frame_allocator_4kib.frames(),
                        old(self).frame_allocator_4kib.next as int,
                        self.frame_allocator_4kib.next as int,
                        (#[trigger] self.view()[(start + j * 4096) as u64]).frame,
                    ),
                forall|j1: int, j2: int|
                    0 <= j1 < j2 < i ==> (#[trigger] self.view()[(start + j1 * 4096) as u64]).frame
                        != (#[trigger] self.view()[(start + j2 * 4096) as u64]).frame,
                forall|q: u64|
                    page_addr_wf(q) ==> missing_tables(self.root@, q) <= missing_tables(
                        old(self).root@,
                        q,
                    ),
                forall|q: u64|
                    page_addr_wf(q) && !(start <= q < end) ==> (self.view().contains_key(q)
                        <==> old(self).view().contains_key(q)) && (old(self).view().contains_key(q)
                        ==> self.view()[q] == old(self).view()[q]),
                forall|q: u64|
                    #[trigger] old(self).view().contains_key(q) ==> self.view().contains_key(q)
                        && self.view()[q] == old(self).view()[q],
                forall|j: int|
                    0 <= j < i ==> !old(self).view().contains_key((start + j * 4096) as u64)
                        && #[trigger] self.view().contains_key((start + j * 4096) as u64)
                        && self.view()[(start + j * 4096) as u64].flags == flags,
                forall|j: int|
                    i <= j < n_pages ==> (#[trigger] self.view().contains_key(
                        (start + j * 4096) as u64,
                    ) <==> old(self).view().contains_key((start + j * 4096) as u64)),
                clean == (forall|p: u64|
                    start <= p < end && p % 4096 == 0 ==> missing_tables(old(self).root@, p) == 0
                        && !old(self).view().contains_key(p)),
                clean ==> self.frame_allocator_4kib.next == old(self).frame_allocator_4kib.next
                    + i,
                clean ==> i <= old(self).remaining_frames() || i == 0,
                clean ==> forall|j: int|
                    0 <= j < i ==> #[trigger] self.view()[(start + j * 4096) as u64]
                        == (PageMapping {
                        frame: old(self).frame_allocator_4kib.frames()[old(
                            self,
                        ).frame_allocator_4kib.next + j],
                        flags,
                    }),
            decreases n_pages - i,
        {
            let page = start + i * FRAME_SIZE;
            proof {
                assert((end - start) % 4096 == 0) by (nonlinear_arith)
                    requires
                        start % 4096 == 0,
                        end % 4096 == 0,
                        start <= end,
                ;
                assert(i * 4096 + 4096 <= (end - start)) by (nonlinear_arith)
                    requires
                        i < n_pages,
                        n_pages == (end - start) / 4096,
                        (end - start) % 4096 == 0,
                ;
                assert((start + i * 4096) % 4096 == 0) by (nonlinear_arith)
                    requires
                        start % 4096 == 0,
                ;
                assert(page_addr_wf(page));
                if clean {
                    assert(missing_tables(old(self).root@, page) == 0 && !old(
                        self,
                    ).view().contains_key(page));
                    assert(missing_tables(self.root@, page) == 0);
                    assert(!self.view().contains_key(page));
                }
            }
            let ghost pre = *self;
            let frame = match self.frame_allocator_4kib.allocate_frame() {
                Some(f) => f,
                None => {
                    proof {
                        // The cursor had passed the usable sequence, and it
                        // had advanced at most four frames per mapped page.
                        assert(pre.frame_allocator_4kib.frames().len()
                            <= pre.frame_allocator_4kib.next);
                        assert(old(self).remaining_frames() <= 4 * (i as int));
                        assert(0 <= i as int <= (end - start) / 4096);
                        assert(self.root@ == pre.root@);
                        assert(self.view() == pre.view());
                        assert forall|j: int| 0 <= j < i as int implies !old(
                            self,
                        ).view().contains_key((start + j * 4096) as u64)
                            && #[trigger] self.view().contains_key((start + j * 4096) as u64)
                            && self.view()[(start + j * 4096) as u64].flags == flags by {}
                        assert forall|j: int|
                            i as int <= j < (end - start) / 4096 implies (
                        #[trigger] self.view().contains_key((start + j * 4096) as u64) <==> old(
                            self,
                        ).view().contains_key((start + j * 4096) as u64)) by {}
                        assert(mapped_prefix(
                            old(self).view(),
                            self.view(),
                            start,
                            (end - start) / 4096,
                            i as int,
                            flags,
                        ));
                        if clean {
                            assert(pre.remaining_frames() == 0);
                            assert(i == 0 || i <= pre.remaining_frames() + i);
                            assert(old(self).remaining_frames() <= i);
                            assert(i <= old(self).remaining_frames() || i == 0);
                            assert(old(self).remaining_frames() == i);
                        }
                    }
                    return Err(MapError::FrameAllocationFailed);
                },
            };
            let ghost pre2 = *self;
            match self.map(page, frame, flags) {
                Ok(()) => (),
                Err(e) => {
                    proof {
                        assert(page == (start + (i as int) * 4096) as u64);
                        assert(pre2.root@ == pre.root@);
                        assert(pre2.view() == pre.view());
                        assert(self.view() == pre.view());
                        assert forall|j: int| 0 <= j < i as int implies !old(
                            self,
                        ).view().contains_key((start + j * 4096) as u64)
                            && #[trigger] self.view().contains_key((start + j * 4096) as u64)
                            && self.view()[(start + j * 4096) as u64].flags == flags by {}
                        assert forall|j: int|
                            i as int <= j < (end - start) / 4096 implies (
                        #[trigger] self.view().contains_key((start + j * 4096) as u64) <==> old(
                            self,
                        ).view().contains_key((start + j * 4096) as u64)) by {}
                        assert(mapped_prefix(
                            old(self).view(),
                            self.view(),
                            start,
                            (end - start) / 4096,
                            i as int,
                            flags,
                        ));
                        if e == MapError::FrameAllocationFailed {
                            // The walk found fewer frames than the missing
                            // tables (at most three), so the whole usable
                            // sequence ends within four frames per page.
                            let fa2 = pre2.frame_allocator_4kib;
                            assert(missing_tables(pre2.root@, page) <= 3);
                            assert(pre2.remaining_frames() <= 2);
                            assert(fa2.next <= old(self).frame_allocator_4kib.next + 4 * (
                            i as int) + 1);
                            assert(fa2.frames().len() <= fa2.next + pre2.remaining_frames());
                            assert(old(self).remaining_frames() <= 4 * (i as int) + 3);
                            assert(old(self).remaining_frames() <= 4 * ((end - start) / 4096));
                        }
                        if e == MapError::PageAlreadyMapped {
                            assert(pre.view().contains_key((start + (i as int) * 4096) as u64));
                            assert(old(self).view().contains_key(page));
                            assert(exists|p: u64|
                                start <= p < end && p % 4096 == 0 && old(self).view().contains_key(
                                    p,
                                ));
                        }
                        if clean {
                            assert(missing_tables(pre.root@, page) == 0);
                            assert(!pre.view().contains_key(page));
                            assert(false);
                        }
                    }
                    return Err(e);
                },
            }
            proof {
                let vnew = self.view();
                assert(vnew == pre.view().insert(page, PageMapping { frame, flags }));
                let fs = old(self).frame_allocator_4kib.frames();
                let next0 = old(self).frame_allocator_4kib.next as int;
                let k_new = pre.frame_allocator_4kib.next as int;
                assert(self.frame_allocator_4kib.frames() == fs);
                assert(frame == fs[k_new] && k_new < fs.len());
                assert(next0 <= k_new && k_new < self.frame_allocator_4kib.next as int);
                assert(frame_from(
                    fs,
                    next0,
                    self.frame_allocator_4kib.next as int,
                    vnew[page].frame,
                ));
                assert forall|j: int| 0 <= j < i implies frame_from(
                    fs,
                    next0,
                    self.frame_allocator_4kib.next as int,
                    (#[trigger] vnew[(start + j * 4096) as u64]).frame,
                ) && vnew[(start + j * 4096) as u64].frame != vnew[page].frame by {
                    assert((start + j * 4096) as u64 != page);
                    assert(vnew[(start + j * 4096) as u64] == pre.view()[(start + j
                        * 4096) as u64]);
                    let k_old = choose|k: int|
                        next0 <= k <= (k_new - 1) && pre.view()[(start + j * 4096) as u64].frame
                            == #[trigger] fs[k];
                    assert(fs[k_old] == pre.view()[(start + j * 4096) as u64].frame);
                    crate::memory::lemma_usable_frames_sound(
                        old(self).frame_allocator_4kib.memory_map@,
                    );
                    assert(fs[k_old] != fs[k_new]);
                }
                assert forall|j: int| 0 <= j <= i implies !old(self).view().contains_key(
                    (start + j * 4096) as u64,
                ) && #[trigger] vnew.contains_key((start + j * 4096) as u64) && vnew[(start + j
                    * 4096) as u64].flags == flags by {
                    if j < i {
                        assert(pre.view().contains_key((start + j * 4096) as u64));
                        assert((start + j * 4096) as u64 != page);
                    } else {
                        assert((start + j * 4096) as u64 == page);
                        assert(!pre.view().contains_key(page));
                    }
                }
                assert forall|j: int| i + 1 <= j < n_pages implies (#[trigger] vnew.contains_key(
                    (start + j * 4096) as u64,
                ) <==> old(self).view().contains_key((start + j * 4096) as u64)) by {
                    assert(j * 4096 + 4096 <= (end - start)) by (nonlinear_arith)
                        requires
                            j < n_pages,
                            n_pages == (end - start) / 4096,
                            (end - start) % 4096 == 0,
                    ;
                    assert((start + j * 4096) as u64 != page);
                    assert(pre.view().contains_key((start + j * 4096) as u64) <==> old(
                        self,
                    ).view().contains_key((start + j * 4096) as u64));
                }
                if clean {
                    let fs = old(self).frame_allocator_4kib.frames();
                    let next0 = old(self).frame_allocator_4kib.next as int;
                    assert(pre.frame_allocator_4kib.next == next0 + i);
                    assert(pre.frame_allocator_4kib.next < fs.len());
                    assert(frame == fs[next0 + i]);
                }
            }
            i = i + 1;
        }
        proof {
            assert forall|p: u64| start <= p < end && p % 4096 == 0 implies !old(
                self,
            ).view().contains_key(p) && #[trigger] self.view().contains_key(p)
                && self.view()[p].flags == flags by {
                let j = ((p - start) / 4096) as int;
                assert((p - start) % 4096 == 0 && (end - start) % 4096 == 0) by (nonlinear_arith)
                    requires
                        p % 4096 == 0,
                        start % 4096 == 0,
                        end % 4096 == 0,
                        start <= p,
                        start <= end,
                ;
                assert(p == start + j * 4096) by (nonlinear_arith)
                    requires
                        j == (p - start) / 4096,
                        (p - start) % 4096 == 0,
                        start <= p,
                ;
                assert(0 <= j < n_pages) by (nonlinear_arith)
                    requires
                        j == (p - start) / 4096,
                        n_pages == (end - start) / 4096,
                        (p - start) % 4096 == 0,
                        (end - start) % 4096 == 0,
                        start <= p < end,
                ;
                assert((start + j * 4096) as u64 == p);
                assert(!old(self).view().contains_key((start + j * 4096) as u64)
                    && self.view().contains_key((start + j * 4096) as u64) && self.view()[(start + j
                    * 4096) as u64].flags == flags);
            }
            assert forall|p: u64| start <= p < end && p % 4096 == 0 implies frame_from(
                old(self).frame_allocator_4kib.frames(),
                old(self).frame_allocator_4kib.next as int,
                self.frame_allocator_4kib.next as int,
                (#[trigger] self.view()[p]).frame,
            ) by {
                let j = ((p - start) / 4096) as int;
                assert(p == start + j * 4096 && 0 <= j < n_pages) by (nonlinear_arith)
                    requires
                        start % 4096 == 0,
                        p % 4096 == 0,
                        start <= p < end,
                        n_pages == (end - start) / 4096,
                        (end - start) % 4096 == 0,
                        (p - start) % 4096 == 0,
                        j == (p - start) / 4096,
                ;
                assert((start + j * 4096) as u64 == p);
            }
            assert forall|p1: u64, p2: u64|
                start <= p1 < end && p1 % 4096 == 0 && start <= p2 < end && p2 % 4096 == 0 && p1
                    != p2 implies (#[trigger] self.view()[p1]).frame != (
            #[trigger] self.view()[p2]).frame by {
                let j1 = ((p1 - start) / 4096) as int;
                let j2 = ((p2 - start) / 4096) as int;
                assert((p1 - start) % 4096 == 0 && (p2 - start) % 4096 == 0) by (nonlinear_arith)
                    requires
                        p1 % 4096 == 0,
                        p2 % 4096 == 0,
                        start % 4096 == 0,
                        start <= p1,
                        start <= p2,
                ;
                assert(p1 == start + j1 * 4096 && 0 <= j1 < n_pages) by (nonlinear_arith)
                    requires
                        start % 4096 == 0,
                        p1 % 4096 == 0,
                        start <= p1 < end,
                        n_pages == (end - start) / 4096,
                        (end - start) % 4096 == 0,
                        (p1 - start) % 4096 == 0,
                        j1 == (p1 - start) / 4096,
                ;
                assert(p2 == start + j2 * 4096 && 0 <= j2 < n_pages) by (nonlinear_arith)
                    requires
                        start % 4096 == 0,
                        p2 % 4096 == 0,
                        start <= p2 < end,
                        n_pages == (end - start) / 4096,
                        (end - start) % 4096 == 0,
                        (p2 - start) % 4096 == 0,
                        j2 == (p2 - start) / 4096,
                ;
                assert((start + j1 * 4096) as u64 == p1);
                assert((start + j2 * 4096) as u64 == p2);
                assert(j1 != j2);
            }
        }
        Ok(())
    }

    /// Maps the pages containing every address of [`start`, `end`],
    /// inclusive at both ends, one fresh frame per page: the same
    /// obligations as [`Self::map_range`] over the covering page range,
    /// including the exact one-frame-per-page accounting when the walks
    /// find their tables in place.
    #[verifier::rlimit(100)]
    #[verifier::spinoff_prover]
    pub fn allocate_pages_4kib(&mut self, start: u64, end: u64, flags: PageTableFlags) -> (r:
        Result<(), MapError>)
        requires
            old(self).wf(),
            start <= end,
            end < ADDRESS_SPACE_END,
            old(self).frame_allocator_4kib.next + 4 * ((end / 4096 * 4096 + 4096 - start / 4096
                * 4096) / 4096) + 4 <= usize::MAX,
        ensures
            final(self).wf(),
            final(self).physical_memory_offset == old(self).physical_memory_offset,
            final(self).frame_allocator_4kib.memory_map@ == old(
                self,
            ).frame_allocator_4kib.memory_map@,
            forall|q: u64|
                page_addr_wf(q) ==> missing_tables(final(self).root@, q) <= missing_tables(
                    old(self).root@,
                    q,
                ),
            forall|q: u64|
                page_addr_wf(q) && !(start / 4096 * 4096 <= q < end / 4096 * 4096 + 4096)
                    ==> (final(self).view().contains_key(q) <==> old(self).view().contains_key(q))
                    && (old(self).view().contains_key(q) ==> final(self).view()[q] == old(
                    self,
                ).view()[q]),
            forall|q: u64|
                #[trigger] old(self).view().contains_key(q) ==> final(self).view().contains_key(q)
                    && final(self).view()[q] == old(self).view()[q],
            match r {
                Ok(()) => forall|p: u64|
                    p % 4096 == 0 && p <= end && start < p + 4096 ==> !old(
                        self,
                    ).view().contains_key(p) && #[trigger] final(self).view().contains_key(p) && (
                    final(self).view()[p].flags == flags),
                Err(MapError::PageAlreadyMapped) => exists|p: u64|
                    p % 4096 == 0 && p <= end && start < p + 4096 && old(
                        self,
                    ).view().contains_key(p),
                Err(MapError::FrameAllocationFailed) => final(self).remaining_frames() == 0
                    && old(self).remaining_frames() <= 4 * ((end / 4096 * 4096 + 4096 - start
                    / 4096 * 4096) / 4096),
            },
            r is Err ==> exists|k: int|
                #[trigger] mapped_prefix(
                    old(self).view(),
                    final(self).view(),
                    (start / 4096 * 4096) as u64,
                    (end / 4096 * 4096 + 4096 - start / 4096 * 4096) / 4096,
                    k,
                    flags,
                ),
            r is Ok ==> {
                let s = start / 4096 * 4096;
                let e = end / 4096 * 4096 + 4096;
                let fs = old(self).frame_allocator_4kib.frames();
                let next0 = old(self).frame_allocator_4kib.next as int;
                let nextf = final(self).frame_allocator_4kib.next as int;
                &&& forall|p: u64|
                    s <= p < e && p % 4096 == 0 ==> frame_from(
                        fs,
                        next0,
                        nextf,
                        (#[trigger] final(self).view()[p]).frame,
                    )
                &&& forall|p1: u64, p2: u64|
                    s <= p1 < e && p1 % 4096 == 0 && s <= p2 < e && p2 % 4096 == 0 && p1 != p2
                        ==> (#[trigger] final(self).view()[p1]).frame != (
                    #[trigger] final(self).view()[p2]).frame
            },
            (forall|p: u64|
                start / 4096 * 4096 <= p < end / 4096 * 4096 + 4096 && p % 4096 == 0
                    ==> missing_tables(old(self).root@, p) == 0 && !old(self).view().contains_key(
                    p,
                )) ==> {
                let s = start / 4096 * 4096;
                let n = ((end / 4096 * 4096 + 4096 - start / 4096 * 4096) / 4096) as nat;
                let fs = old(self).frame_allocator_4kib.frames();
                let next0 = old(self).frame_allocator_4kib.next as nat;
                match r {
                    Ok(()) => {
                        &&& n <= old(self).remaining_frames()
                        &&& final(self).frame_allocator_4kib.next == next0 + n
                        &&& forall|j: int|
                            0 <= j < n ==> #[trigger] final(self).view()[(s + j * 4096) as u64]
                                == (PageMapping { frame: fs[next0 + j], flags })
                    },
                    Err(MapError::PageAlreadyMapped) => false,
                    Err(MapError::FrameAllocationFailed) => {
                        &&& old(self).remaining_frames() < n
                        &&& final(self).frame_allocator_4kib.next == next0
                            + old(self).remaining_frames() + 1
                        &&& forall|j: int|
                            0 <= j < old(self).remaining_frames() ==> #[trigger] final(self).view()[
                                (s + j * 4096) as u64
                            ] == (PageMapping { frame: fs[next0 + j], flags })
                    },
                }
            },
    {
        let start_page = start / FRAME_SIZE * FRAME_SIZE;
        let last_page = end / FRAME_SIZE * FRAME_SIZE;
        proof {
            assert(start_page % 4096 == 0 && start_page <= start) by (nonlinear_arith)
                requires
                    start_page == start / 4096 * 4096,
            ;
            assert(last_page % 4096 == 0 && last_page <= end && end < last_page + 4096)
                by (nonlinear_arith)
                requires
                    last_page == end / 4096 * 4096,
            ;
        }
        let r = self.map_range(start_page, last_page + FRAME_SIZE, flags);
        proof {
            if r is Ok {
                assert forall|p: u64| p % 4096 == 0 && p <= end && start < p + 4096 implies !old(
                    self,
                ).view().contains_key(p) && #[trigger] self.view().contains_key(p) && (
                self.view()[p].flags == flags) by {
                    assert(start_page <= p) by (nonlinear_arith)
                        requires
                            start_page == start / 4096 * 4096,
                            p % 4096 == 0,
                            start < p + 4096,
                    ;
                    assert(p < last_page + 4096) by (nonlinear_arith)
                        requires
                            last_page == end / 4096 * 4096,
                            p % 4096 == 0,
                            p <= end,
                    ;
                }
            }
            if r == Err::<(), MapError>(MapError::PageAlreadyMapped) {
                let p = choose|p: u64|
                    start_page <= p < last_page + 4096 && p % 4096 == 0 && old(
                        self,
                    ).view().contains_key(p);
                assert(p <= end && start < p + 4096) by (nonlinear_arith)
                    requires
                        start_page == start / 4096 * 4096,
                        last_page == end / 4096 * 4096,
                        p % 4096 == 0,
                        start_page <= p,
                        p < last_page + 4096,
                ;
            }
        }
        r
    }
}

} // verus!
