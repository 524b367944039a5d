//! Physical frame allocation from the firmware-supplied memory map.
//!
//! The firmware hands the kernel a sequence of memory-map entries at boot.
//! The frame allocator flattens the `Usable` entries into 4096-byte frames
//! and hands them out one by one, never reusing an address (allocation is
//! monotonic; there is deliberately no deallocate path).

use vstd::prelude::*;

verus! {

/// Size in bytes of a physical frame and of a virtual page.
pub const FRAME_SIZE: u64 = 4096;

/// Classification of a firmware memory-map entry.
///
/// Only `Usable` regions may be handed out as frames; every other kind is
/// owned by firmware, devices or the loaded kernel image.
#[derive(Clone, Copy, PartialEq, Eq, Structural, Debug)]
pub enum RegionKind {
    Usable,
    Reserved,
    AcpiReclaimable,
    AcpiNvs,
    BadMemory,
    BootloaderReclaimable,
    KernelAndModules,
    Framebuffer,
}

/// One firmware memory-map entry: a physical byte range and its kind.
#[derive(Clone, Copy, PartialEq, Eq, Structural, Debug)]
pub struct MemoryRegion {
    pub base: u64,
    pub len: u64,
    pub kind: RegionKind,
}

/// The firmware promises frame-aligned entries that fit in the physical
/// address space.
pub open spec fn region_wf(r: MemoryRegion) -> bool {
    &&& r.base % 4096 == 0
    &&& r.len % 4096 == 0
    &&& r.base + r.len <= u64::MAX
}

/// Two entries never share a byte.
pub open spec fn regions_disjoint(a: MemoryRegion, b: MemoryRegion) -> bool {
    a.base + a.len <= b.base || b.base + b.len <= a.base
}

/// A well-formed memory map: aligned, in-range, pairwise disjoint entries.
pub open spec fn memory_map_wf(map: Seq<MemoryRegion>) -> bool {
    &&& forall|i: int| 0 <= i < map.len() ==> region_wf(#[trigger] map[i])
    &&& forall|i: int, j: int|
        0 <= i < map.len() && 0 <= j < map.len() && i != j ==> regions_disjoint(
            #[trigger] map[i],
            #[trigger] map[j],
        )
}

/// The frames contributed by one entry: every 4096-byte step of a `Usable`
/// region, nothing from the others.
pub open spec fn region_frames(r: MemoryRegion) -> Seq<u64> {
    if r.kind is Usable {
        Seq::new((r.len / 4096) as nat, |i: int| (r.base + i * 4096) as u64)
    } else {
        Seq::empty()
    }
}

/// All usable frames of the map, in map order.
pub open spec fn usable_frames_of(map: Seq<MemoryRegion>) -> Seq<u64>
    decreases map.len(),
{
    if map.len() == 0 {
        Seq::empty()
    } else {
        region_frames(map[0]) + usable_frames_of(map.skip(1))
    }
}

/// Hands out previously-unused physical frames from the memory map.
///
/// `next` is the cursor of frames already issued; it only ever grows.
pub struct FrameAllocator4KiB {
    pub memory_map: Vec<MemoryRegion>,
    pub next: usize,
}

impl FrameAllocator4KiB {
    pub open spec fn wf(self) -> bool {
        memory_map_wf(self.memory_map@)
    }

    /// The full sequence of frames this allocator can ever hand out.
    pub open spec fn frames(self) -> Seq<u64> {
        usable_frames_of(self.memory_map@)
    }

    /// How many frames are still unissued.
    pub open spec fn remaining(self) -> nat {
        if self.next <= self.frames().len() {
            (self.frames().len() - self.next) as nat
        } else {
            0
        }
    }

    /// Wraps a firmware memory map.  The caller vouches that every `Usable`
    /// entry is really unused; the map is read, never written.
    pub fn new(memory_map: Vec<MemoryRegion>) -> (r: Self)
        ensures
            r.memory_map@ == memory_map@,
            r.next == 0,
    {
        Self { memory_map, next: 0 }
    }

    /// Returns the `next`-th usable frame and advances the cursor, or `None`
    /// once the usable set is exhausted (the cursor still advances, as in a
    /// plain `nth` on the flattened iterator).
    pub fn allocate_frame(&mut self) -> (r: Option<u64>)
        requires
            old(self).wf(),
            old(self).next < usize::MAX,
        ensures
            final(self).memory_map@ == old(self).memory_map@,
            final(self).next == old(self).next + 1,
            r == (if old(self).next < old(self).frames().len() {
                Some(old(self).frames()[old(self).next as int])
            } else {
                None::<u64>
            }),
    {
        let frame = self.nth_usable_frame(self.next);
        self.next = self.next + 1;
        frame
    }

    /// All usable frames of the map, materialised in allocation order.
    pub fn usable_frames(&self) -> (r: Vec<u64>)
        requires
            self.wf(),
        ensures
            r@ == self.frames(),
    {
        let n = self.memory_map.len();
        let mut out: Vec<u64> = Vec::new();
        let mut i: usize = 0;
        while i < n
            invariant
                n == self.memory_map@.len(),
                0 <= i <= n,
                self.wf(),
                out@ == usable_frames_of(self.memory_map@.take(i as int)),
            decreases n - i,
        {
            let r = self.memory_map[i];
            if matches!(r.kind, RegionKind::Usable) {
                let count = r.len / FRAME_SIZE;
                let mut j: u64 = 0;
                while j < count
                    invariant
                        region_wf(r),
                        r.kind is Usable,
                        count == r.len / 4096,
                        0 <= j <= count,
                        out@ == usable_frames_of(self.memory_map@.take(i as int))
                            + region_frames(r).take(j as int),
                    decreases count - j,
                {
                    proof {
                        lemma_frame_address_in_range(r, j as int);
                    }
                    out.push(r.base + j * FRAME_SIZE);
                    j = j + 1;
                    proof {
                        assert(region_frames(r).take(j as int) =~= region_frames(r).take(
                            j - 1,
                        ).push((r.base + (j - 1) * 4096) as u64));
                    }
                }
                proof {
                    assert(region_frames(r).take(count as int) =~= region_frames(r));
                }
            }
            i = i + 1;
            proof {
                lemma_usable_frames_take_step(self.memory_map@, i as int);
                if !(r.kind is Usable) {
                    assert(region_frames(r) =~= Seq::<u64>::empty());
                    assert(out@ + region_frames(r) =~= out@);
                }
            }
        }
        proof {
            assert(self.memory_map@.take(n as int) =~= self.memory_map@);
        }
        out
    }

    /// The `n`-th element of the flattened usable-frame sequence, walking the
    /// map region by region instead of materialising the whole sequence.
    fn nth_usable_frame(&self, n: usize) -> (r: Option<u64>)
        requires
            self.wf(),
        ensures
            r == (if n < self.frames().len() {
                Some(self.frames()[n as int])
            } else {
                None::<u64>
            }),
    {
        let total = self.memory_map.len();
        let mut skip: u64 = n as u64;
        let mut i: usize = 0;
        proof {
            assert(self.memory_map@.skip(0) =~= self.memory_map@);
        }
        while i < total
            invariant
                total == self.memory_map@.len(),
                0 <= i <= total,
                self.wf(),
                nth_frame_of(self.memory_map@.skip(i as int), skip as nat) == nth_frame_of(
                    self.memory_map@,
                    n as nat,
                ),
            decreases total - i,
        {
            let ghost rest = self.memory_map@.skip(i as int);
            let r = self.memory_map[i];
            proof {
                assert(rest.skip(1) =~= self.memory_map@.skip(i + 1));
                assert(usable_frames_of(rest) == region_frames(r) + usable_frames_of(
                    rest.skip(1),
                ));
            }
            if matches!(r.kind, RegionKind::Usable) {
                let count = r.len / FRAME_SIZE;
                if skip < count {
                    proof {
                        lemma_frame_address_in_range(r, skip as int);
                        assert(usable_frames_of(rest)[skip as int] == region_frames(r)[skip as int]);
                    }
                    return Some(r.base + skip * FRAME_SIZE);
                }
                proof {
                    assert(region_frames(r).len() == count);
                    assert forall|k: nat| k >= count implies nth_frame_of(rest, k) == nth_frame_of(
                        rest.skip(1),
                        (k - count) as nat,
                    ) by {
                        if k < usable_frames_of(rest).len() {
                            assert(usable_frames_of(rest)[k as int] == usable_frames_of(
                                rest.skip(1),
                            )[k - count]);
                        }
                    }
                }
                skip = skip - count;
            }
            proof {
                if !(r.kind is Usable) {
                    assert(usable_frames_of(rest) =~= usable_frames_of(rest.skip(1)));
                }
            }
            i = i + 1;
        }
        proof {
            assert(self.memory_map@.skip(total as int) =~= Seq::<MemoryRegion>::empty());
        }
        None
    }
}

/// A frame address computed inside a well-formed usable region stays within
/// the region and within `u64`.
proof fn lemma_frame_address_in_range(r: MemoryRegion, j: int)
    requires
        region_wf(r),
        0 <= j < r.len / 4096,
    ensures
        r.base + j * 4096 + 4096 <= r.base + r.len,
{
    assert(j * 4096 + 4096 <= (r.len / 4096) * 4096) by (nonlinear_arith)
        requires
            0 <= j < r.len / 4096,
    ;
    assert((r.len / 4096) * 4096 <= r.len) by (nonlinear_arith);
}

/// Flattening the first `i` regions and then region `i - 1` is the same as
/// flattening the first `i` regions at once.
proof fn lemma_usable_frames_take_step(map: Seq<MemoryRegion>, i: int)
    requires
        1 <= i <= map.len(),
    ensures
        usable_frames_of(map.take(i)) == usable_frames_of(map.take(i - 1)) + region_frames(
            map[i - 1],
        ),
    decreases i,
{
    if i == 1 {
        assert(map.take(0) =~= Seq::<MemoryRegion>::empty());
        assert(map.take(1).skip(1) =~= Seq::<MemoryRegion>::empty());
        assert(map.take(1)[0] == map[0]);
        assert(usable_frames_of(Seq::<MemoryRegion>::empty()) == Seq::<u64>::empty());
        assert(usable_frames_of(map.take(1)) == region_frames(map[0]) + Seq::<u64>::empty());
        assert(usable_frames_of(map.take(1)) =~= Seq::<u64>::empty() + region_frames(map[0]));
    } else {
        lemma_usable_frames_take_step(map.skip(1), i - 1);
        assert(map.take(i).skip(1) =~= map.skip(1).take(i - 1));
        assert(map.take(i - 1).skip(1) =~= map.skip(1).take(i - 2));
        assert(map.take(i)[0] == map[0]);
        assert(map.take(i - 1)[0] == map[0]);
        assert(map.skip(1)[i - 2] == map[i - 1]);
        assert(usable_frames_of(map.take(i)) == region_frames(map[0]) + usable_frames_of(
            map.skip(1).take(i - 1),
        ));
        assert(usable_frames_of(map.take(i - 1)) == region_frames(map[0]) + usable_frames_of(
            map.skip(1).take(i - 2),
        ));
        assert(usable_frames_of(map.take(i)) =~= usable_frames_of(map.take(i - 1)) + region_frames(
            map[i - 1],
        ));
    }
}

/// The `k`-th frame of the flattened map, if there is one.
pub open spec fn nth_frame_of(map: Seq<MemoryRegion>, k: nat) -> Option<u64> {
    if k < usable_frames_of(map).len() {
        Some(usable_frames_of(map)[k as int])
    } else {
        None
    }
}

/// Whether `f` is a frame inside some usable region of the map.
pub open spec fn frame_in_usable_region(map: Seq<MemoryRegion>, f: u64) -> bool {
    exists|i: int|
        0 <= i < map.len() && (#[trigger] map[i]).kind is Usable && map[i].base <= f && f + 4096
            <= map[i].base + map[i].len
}

/// On a well-formed memory map, every frame the allocator can hand out is
/// frame-aligned and lies inside a usable region, and no frame appears
/// twice: since `allocate_frame` walks this sequence with a cursor that
/// only grows, `k` calls return `k` distinct, aligned, non-overlapping
/// usable addresses, and once the sequence is exhausted every further call
/// returns nothing rather than re-issuing an address.
pub proof fn lemma_usable_frames_sound(map: Seq<MemoryRegion>)
    requires
        memory_map_wf(map),
    ensures
        forall|k: int|
            0 <= k < usable_frames_of(map).len() ==> (#[trigger] usable_frames_of(map)[k]) % 4096
                == 0,
        forall|k: int|
            0 <= k < usable_frames_of(map).len() ==> frame_in_usable_region(
                map,
                #[trigger] usable_frames_of(map)[k],
            ),
        forall|k1: int, k2: int|
            0 <= k1 < usable_frames_of(map).len() && 0 <= k2 < usable_frames_of(map).len() && k1
                != k2 ==> #[trigger] usable_frames_of(map)[k1] != #[trigger] usable_frames_of(
                map,
            )[k2],
    decreases map.len(),
{
    if map.len() == 0 {
    } else {
        let r = map[0];
        let head = region_frames(r);
        let tail = usable_frames_of(map.skip(1));
        assert(memory_map_wf(map.skip(1))) by {
            assert forall|i: int| 0 <= i < map.skip(1).len() implies region_wf(
                #[trigger] map.skip(1)[i],
            ) by {
                assert(map.skip(1)[i] == map[i + 1]);
            }
            assert forall|i: int, j: int|
                0 <= i < map.skip(1).len() && 0 <= j < map.skip(1).len() && i != j implies
                regions_disjoint(#[trigger] map.skip(1)[i], #[trigger] map.skip(1)[j]) by {
                assert(map.skip(1)[i] == map[i + 1]);
                assert(map.skip(1)[j] == map[j + 1]);
            }
        }
        lemma_usable_frames_sound(map.skip(1));
        assert forall|k: int| 0 <= k < head.len() implies (#[trigger] usable_frames_of(map)[k])
            % 4096 == 0 && usable_frames_of(map)[k] == r.base + k * 4096 && frame_in_usable_region(
            map,
            usable_frames_of(map)[k],
        ) by {
            assert(usable_frames_of(map)[k] == head[k]);
            lemma_frame_address_in_range(r, k);
            assert((r.base + k * 4096) % 4096 == 0) by (nonlinear_arith)
                requires
                    r.base % 4096 == 0,
            ;
            assert(map[0].kind is Usable && map[0].base <= head[k] && head[k] + 4096 <= map[0].base
                + map[0].len);
        }
        assert forall|k: int| head.len() <= k < usable_frames_of(map).len() implies (
        #[trigger] usable_frames_of(map)[k]) % 4096 == 0 && frame_in_usable_region(
            map,
            usable_frames_of(map)[k],
        ) by {
            assert(usable_frames_of(map)[k] == tail[k - head.len()]);
            assert(frame_in_usable_region(map.skip(1), tail[k - head.len()]));
            let i = choose|i: int|
                0 <= i < map.skip(1).len() && (#[trigger] map.skip(1)[i]).kind is Usable
                    && map.skip(1)[i].base <= tail[k - head.len()] && tail[k - head.len()] + 4096
                    <= map.skip(1)[i].base + map.skip(1)[i].len;
            assert(map[i + 1] == map.skip(1)[i]);
        }
        assert forall|k1: int, k2: int|
            0 <= k1 < usable_frames_of(map).len() && 0 <= k2 < usable_frames_of(map).len() && k1
                != k2 implies #[trigger] usable_frames_of(map)[k1]
            != #[trigger] usable_frames_of(map)[k2] by {
            let f1 = usable_frames_of(map)[k1];
            let f2 = usable_frames_of(map)[k2];
            if k1 < head.len() && k2 < head.len() {
                assert(f1 == head[k1] && f2 == head[k2]);
                assert(r.base + k1 * 4096 != r.base + k2 * 4096) by (nonlinear_arith)
                    requires
                        k1 != k2,
                ;
            } else if k1 >= head.len() && k2 >= head.len() {
                assert(f1 == tail[k1 - head.len()] && f2 == tail[k2 - head.len()]);
            } else {
                let (ka, kb) = if k1 < head.len() {
                    (k1, k2)
                } else {
                    (k2, k1)
                };
                let fa = usable_frames_of(map)[ka];
                let fb = usable_frames_of(map)[kb];
                assert(fa == head[ka]);
                lemma_frame_address_in_range(r, ka);
                assert(frame_in_usable_region(map.skip(1), tail[kb - head.len()]));
                let i = choose|i: int|
                    0 <= i < map.skip(1).len() && (#[trigger] map.skip(1)[i]).kind is Usable
                        && map.skip(1)[i].base <= fb && fb + 4096 <= map.skip(1)[i].base + map.skip(
                        1,
                    )[i].len;
                assert(map[i + 1] == map.skip(1)[i]);
                assert(regions_disjoint(map[0], map[i + 1]));
            }
        }
    }
}

} // verus!
