//! The exception stack table: a reserved alternate stack for the double
//! fault path.
//!
//! A double fault must run on a stack that cannot already be exhausted, so
//! boot reserves a dedicated byte buffer and records its top in a fixed
//! slot of the task-state record.  Loading the descriptor table, reloading
//! the code segment and pointing the task register at the record are CPU
//! instructions and stay outside the crate; the address arithmetic and the
//! slot bookkeeping are checked here.

use vstd::prelude::*;

verus! {

/// The interrupt-stack-table slot reserved for the double-fault handler.
pub const DOUBLE_FAULT_IST_INDEX: u16 = 0;

/// Bytes reserved for the double-fault stack.  The buffer has no guard
/// page, so this must exceed the handler's worst-case usage by
/// construction.
pub const DOUBLE_FAULT_STACK_SIZE: u64 = 4096 * 5;

/// Number of alternate-stack slots the task-state record holds.
pub const IST_SLOTS: usize = 7;

/// The task-state record: one stack-top address per alternate-stack slot.
/// Written once at boot, read-only afterwards.
pub struct TaskStateSegment {
    pub interrupt_stack_table: Vec<u64>,
}

/// Computes the alternate-stack top from the reserved buffer's start and
/// records it in the double-fault slot; every other slot stays empty.
/// Must run exactly once, before any interrupt handler is installed.
pub fn init(stack_start: u64) -> (r: TaskStateSegment)
    requires
        stack_start + DOUBLE_FAULT_STACK_SIZE <= u64::MAX,
    ensures
        r.interrupt_stack_table@.len() == IST_SLOTS,
        r.interrupt_stack_table@[DOUBLE_FAULT_IST_INDEX as int] == stack_start
            + DOUBLE_FAULT_STACK_SIZE,
        forall|i: int|
            0 <= i < IST_SLOTS && i != DOUBLE_FAULT_IST_INDEX ==> r.interrupt_stack_table@[i]
                == 0,
{
    let mut interrupt_stack_table: Vec<u64> = Vec::new();
    let mut i: usize = 0;
    while i < IST_SLOTS
        invariant
            i == interrupt_stack_table@.len(),
            0 <= i <= IST_SLOTS,
            forall|j: int| 0 <= j < i ==> interrupt_stack_table@[j] == 0,
        decreases IST_SLOTS - i,
    {
        interrupt_stack_table.push(0);
        i = i + 1;
    }
    let stack_end = stack_start + DOUBLE_FAULT_STACK_SIZE;
    interrupt_stack_table[DOUBLE_FAULT_IST_INDEX as usize] = stack_end;
    TaskStateSegment { interrupt_stack_table }
}

} // verus!
