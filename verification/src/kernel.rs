//! Early kernel initialization: the fixed boot order, and the boot context
//! that every later subsystem borrows its state from.
//!
//! The order is strict: exception stack, then interrupt bindings (with
//! delivery still masked), then the frame allocator and mapper, then heap
//! backing, and only then is interrupt acceptance enabled — any earlier
//! step risks delivery to an unbound vector or allocation without a heap.
//! `init` performs all the in-crate parts in that order inside one
//! function; the caller interleaves the hardware loads between its steps
//! and must treat an error as fatal to boot (print a diagnostic and halt,
//! no retry).

use vstd::prelude::*;
use crate::allocator::KernelHeap;
use crate::allocator::HEAP_SIZE;
use crate::allocator::HEAP_START;
use crate::gdt::TaskStateSegment;
use crate::gdt::DOUBLE_FAULT_IST_INDEX;
use crate::gdt::DOUBLE_FAULT_STACK_SIZE;
use crate::interrupt::HandlerBinding;
use crate::interrupt::IdtEntry;
use crate::interrupt::InputMailbox;
use crate::interrupt::InterruptTable;
use crate::interrupt::KeyboardDecoder;
use crate::interrupt::SleepCounter;
use crate::interrupt::DOUBLE_FAULT_VECTOR;
use crate::memory::MemoryRegion;
use crate::paging::MapError;
use crate::paging::PageAllocator;
use crate::paging::PageTableFlags;

verus! {

/// Everything boot constructs, handed by reference to later subsystems
/// instead of living as ambient globals with an unenforced initialization
/// order.
pub struct BootContext {
    pub tss: TaskStateSegment,
    pub idt: InterruptTable,
    pub pic1_mask: u8,
    pub page_allocator: PageAllocator,
    pub heap: KernelHeap,
    pub sleep: SleepCounter,
    pub mailbox: InputMailbox,
    pub keyboard: KeyboardDecoder,
    pub interrupts_enabled: bool,
}

/// Builds the boot context in the fixed order.  On success the heap window
/// is fully backed and claimed, the double-fault vector points at the
/// reserved alternate stack, the timer and keyboard lines are unmasked, and
/// interrupt acceptance is flagged on as the terminal step.  On failure the
/// heap was never claimed and boot must abort with a diagnostic.
pub fn init(
    memory_map: Vec<MemoryRegion>,
    physical_memory_offset: u64,
    double_fault_stack_start: u64,
    firmware_pic1_mask: u8,
) -> (r: Result<BootContext, MapError>)
    requires
        crate::memory::memory_map_wf(memory_map@),
        double_fault_stack_start + DOUBLE_FAULT_STACK_SIZE <= u64::MAX,
    ensures
        match r {
            Ok(ctx) => {
                &&& ctx.tss.interrupt_stack_table@[DOUBLE_FAULT_IST_INDEX as int]
                    == double_fault_stack_start + DOUBLE_FAULT_STACK_SIZE
                &&& ctx.idt.wf()
                &&& ctx.idt.entries@[DOUBLE_FAULT_VECTOR as int] == (IdtEntry {
                    handler: HandlerBinding::DoubleFault,
                    stack_index: Some(DOUBLE_FAULT_IST_INDEX),
                })
                &&& forall|v: int|
                    0 <= v < 32 && v != DOUBLE_FAULT_VECTOR
                        && v != crate::interrupt::BREAKPOINT_VECTOR
                        && v != crate::interrupt::PAGE_FAULT_VECTOR
                        ==> (#[trigger] ctx.idt.entries@[v]).handler
                        == HandlerBinding::UnhandledException
                &&& ctx.pic1_mask == firmware_pic1_mask & 0xfc
                &&& ctx.page_allocator.wf()
                &&& ctx.page_allocator.frame_allocator_4kib.memory_map@ == memory_map@
                &&& ctx.page_allocator.physical_memory_offset == physical_memory_offset
                &&& forall|p: u64|
                    HEAP_START <= p < HEAP_START + HEAP_SIZE && p % 4096 == 0
                        ==> #[trigger] ctx.page_allocator.view().contains_key(p)
                        && ctx.page_allocator.view()[p].flags == (PageTableFlags {
                        present: true,
                        writable: true,
                    })
                &&& ctx.heap.claimed == Some((HEAP_START, HEAP_SIZE))
                &&& ctx.heap.wf()
                &&& ctx.sleep.remaining == 0
                &&& ctx.mailbox.cur_char is None
                &&& ctx.interrupts_enabled
            },
            Err(e) => {
                // A fresh mapper has nothing bound, so the one failure the
                // boot path can hit is running out of usable frames.
                &&& e == MapError::FrameAllocationFailed
                &&& crate::memory::usable_frames_of(memory_map@).len() <= 4 * ((HEAP_SIZE
                    / 4096) as int)
            },
        },
        crate::memory::usable_frames_of(memory_map@).len() > 4 * ((HEAP_SIZE / 4096) as int)
            ==> r is Ok,
{
    let tss = crate::gdt::init(double_fault_stack_start);
    let idt = crate::interrupt::init();
    let pic1_mask = crate::interrupt::unmask_timer_and_keyboard(firmware_pic1_mask);
    let mut page_allocator = PageAllocator::init(memory_map, physical_memory_offset);
    let mut heap = KernelHeap::new();
    match crate::allocator::init(&mut page_allocator, &mut heap) {
        Ok(()) => (),
        Err(e) => {
            return Err(e);
        },
    }
    Ok(
        BootContext {
            tss,
            idt,
            pic1_mask,
            page_allocator,
            heap,
            sleep: SleepCounter::new(),
            mailbox: InputMailbox::new(),
            keyboard: KeyboardDecoder::new(),
            interrupts_enabled: true,
        },
    )
}

} // verus!
