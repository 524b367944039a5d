use butterscotch_core::allocator;
use butterscotch_core::allocator::KernelHeap;
use butterscotch_core::allocator::HEAP_SIZE;
use butterscotch_core::allocator::HEAP_START;
use butterscotch_core::memory::FrameAllocator4KiB;
use butterscotch_core::memory::MemoryRegion;
use butterscotch_core::memory::RegionKind;
use butterscotch_core::paging::MapError;
use butterscotch_core::paging::PageAllocator;
use butterscotch_core::paging::PageTableFlags;

fn region(base: u64, len: u64, kind: RegionKind) -> MemoryRegion {
    MemoryRegion { base, len, kind }
}

fn flags() -> PageTableFlags {
    PageTableFlags { present: true, writable: true }
}

#[test]
fn first_frame_of_reserved_then_usable_map() {
    // Memory map: 1 MiB reserved, then 256 MiB usable.
    let map = vec![
        region(0, 0x100000, RegionKind::Reserved),
        region(0x100000, 0x10000000, RegionKind::Usable),
    ];
    let mut fa = FrameAllocator4KiB::new(map);
    assert_eq!(fa.allocate_frame(), Some(0x100000));
    let mut last = 0;
    for _ in 1..4096 {
        last = fa.allocate_frame().unwrap();
    }
    // The 4096th request hands out the 4095th frame after the first.
    assert_eq!(last, 0x100000 + 4095 * 4096);
}

#[test]
fn frames_are_distinct_aligned_and_usable() {
    let map = vec![
        region(0x1000, 0x3000, RegionKind::Usable),
        region(0x4000, 0x1000, RegionKind::Reserved),
        region(0x8000, 0x2000, RegionKind::Usable),
    ];
    let mut fa = FrameAllocator4KiB::new(map);
    let mut seen = Vec::new();
    while let Some(f) = fa.allocate_frame() {
        assert_eq!(f % 4096, 0);
        let in_first = f >= 0x1000 && f + 4096 <= 0x4000;
        let in_second = f >= 0x8000 && f + 4096 <= 0xA000;
        assert!(in_first || in_second);
        assert!(!seen.contains(&f));
        seen.push(f);
    }
    assert_eq!(seen.len(), 5);
    // Exhausted: it stays exhausted and never re-issues an address.
    assert_eq!(fa.allocate_frame(), None);
    assert_eq!(fa.allocate_frame(), None);
}

#[test]
fn usable_frames_lists_the_flattened_map() {
    let map = vec![
        region(0x1000, 0x2000, RegionKind::Usable),
        region(0x10000, 0x1000, RegionKind::Usable),
    ];
    let fa = FrameAllocator4KiB::new(map);
    assert_eq!(fa.usable_frames(), vec![0x1000, 0x2000, 0x10000]);
}

#[test]
fn mapping_the_same_page_twice_errors() {
    let map = vec![region(0x100000, 0x100000, RegionKind::Usable)];
    let mut pa = PageAllocator::init(map, 0);
    let mut fa_frame = 0xAAA000;
    assert_eq!(pa.map(0x5000, fa_frame, flags()), Ok(()));
    // The second map fails for every flag combination, and nothing changes.
    for present in [false, true] {
        for writable in [false, true] {
            fa_frame += 0x1000;
            let r = pa.map(0x5000, fa_frame, PageTableFlags { present, writable });
            assert_eq!(r, Err(MapError::PageAlreadyMapped));
        }
    }
}

#[test]
fn map_fails_when_frames_run_out() {
    // Zero usable frames: the very first walk cannot create its tables.
    let map = vec![region(0, 0x1000, RegionKind::Reserved)];
    let mut pa = PageAllocator::init(map, 0);
    assert_eq!(pa.map(0x5000, 0xAAA000, flags()), Err(MapError::FrameAllocationFailed));
}

#[test]
fn map_range_consumes_exactly_one_frame_per_page() {
    let map = vec![region(0x100000, 0x1000000, RegionKind::Usable)];
    let mut pa = PageAllocator::init(map, 0);
    // First mapping in this corner of the address space creates the three
    // intermediate tables.
    assert_eq!(pa.map_range(0x1000, 0x2000, flags()), Ok(()));
    assert_eq!(pa.frame_allocator_4kib.next, 4);
    // With the tables in place, n pages consume exactly n frames.
    assert_eq!(pa.map_range(0x2000, 0x6000, flags()), Ok(()));
    assert_eq!(pa.frame_allocator_4kib.next, 8);
}

#[test]
fn map_range_failure_consumes_only_what_was_mapped() {
    // Seven usable frames: three go to tables, four to pages, then the
    // fifth page request comes back empty.
    let map = vec![region(0x100000, 7 * 0x1000, RegionKind::Usable)];
    let mut pa = PageAllocator::init(map, 0);
    let r = pa.map_range(0x1000, 0x6000, flags());
    assert_eq!(r, Err(MapError::FrameAllocationFailed));
    // All seven frames were issued, plus the one failed request.
    assert_eq!(pa.frame_allocator_4kib.next, 8);
    // Exactly the first four pages were mapped before the failure: the
    // failing page is still free, so a map with a caller-supplied frame
    // (the tables are all in place) goes through.
    assert_eq!(pa.map(0x1000, 0xAAA000, flags()), Err(MapError::PageAlreadyMapped));
    assert_eq!(pa.map(0x4000, 0xAAA000, flags()), Err(MapError::PageAlreadyMapped));
    assert_eq!(pa.map(0x5000, 0xAAA000, flags()), Ok(()));
}

#[test]
fn heap_backing_requests_exactly_the_window_frames() {
    // Enough usable memory for 2048 heap pages plus the page tables.
    let map = vec![region(0x100000, 0x1000000, RegionKind::Usable)];
    let mut pa = PageAllocator::init(map, 0);
    let mut heap = KernelHeap::new();
    assert_eq!(allocator::init(&mut pa, &mut heap), Ok(()));
    // 8 MiB / 4 KiB = 2048 page frames, plus the seven intermediate
    // tables the fresh hierarchy needed: one level-3, one level-2, and
    // five level-1 tables, as the window straddles a level-2 boundary.
    assert_eq!(pa.frame_allocator_4kib.next, 2048 + 7);
    assert_eq!(heap.claimed, Some((HEAP_START, HEAP_SIZE)));
    // A small allocation lands inside the heap window.
    let addr = heap.allocate(64).unwrap();
    assert!(addr >= HEAP_START);
    assert!(addr + 64 <= HEAP_START + HEAP_SIZE);
    let addr2 = heap.allocate(128).unwrap();
    assert!(addr2 >= HEAP_START);
    assert!(addr2 + 128 <= HEAP_START + HEAP_SIZE);
    assert_ne!(addr, addr2);
}

#[test]
fn heap_backing_failure_leaves_no_claim() {
    let map = vec![region(0x100000, 0x10000, RegionKind::Usable)];
    let mut pa = PageAllocator::init(map, 0);
    let mut heap = KernelHeap::new();
    assert_eq!(allocator::init(&mut pa, &mut heap), Err(MapError::FrameAllocationFailed));
    assert_eq!(heap.claimed, None);
    assert_eq!(heap.allocate(16), None);
}

#[test]
fn heap_allocate_refuses_past_the_claim() {
    let mut heap = KernelHeap::new();
    heap.claim(0x1000, 0x100);
    assert_eq!(heap.allocate(0x100), Some(0x1000));
    assert_eq!(heap.allocate(1), None);
}
