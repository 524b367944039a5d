//! Interrupt dispatch: the handler table, the legacy controller's vectors
//! and masks, the timer countdown behind `sleep`, and the keyboard decode
//! path.
//!
//! Loading the table into the CPU, acknowledging the controller and reading
//! the keyboard port are hardware operations and stay outside the crate.
//! What is checked here: which handler and alternate stack every vector is
//! bound to, the mask arithmetic, the countdown that never goes below zero,
//! and what one keyboard byte does to the input mailbox.

use vstd::prelude::*;
use crate::gdt::DOUBLE_FAULT_IST_INDEX;
use crate::gdt::TaskStateSegment;

verus! {

/// First vector of the remapped primary controller, clear of the 32 CPU
/// exception vectors.
pub const PIC_1_OFFSET: u8 = 32;

/// First vector of the remapped secondary controller.
pub const PIC_2_OFFSET: u8 = PIC_1_OFFSET + 8;

/// CPU exception vector of a breakpoint.
pub const BREAKPOINT_VECTOR: u8 = 3;

/// CPU exception vector of a double fault.
pub const DOUBLE_FAULT_VECTOR: u8 = 8;

/// CPU exception vector of a page fault.
pub const PAGE_FAULT_VECTOR: u8 = 14;

/// Number of entries in the interrupt descriptor table.
pub const IDT_ENTRIES: usize = 256;

/// The hardware lines this kernel serves.
#[derive(Clone, Copy, PartialEq, Eq, Structural, Debug)]
pub enum InterruptIndex {
    Timer,
    Keyboard,
}

impl InterruptIndex {
    /// The remapped vector of this line.
    pub fn as_u8(self) -> (r: u8)
        ensures
            r == (match self {
                InterruptIndex::Timer => PIC_1_OFFSET,
                InterruptIndex::Keyboard => (PIC_1_OFFSET + 1) as u8,
            }),
    {
        match self {
            InterruptIndex::Timer => PIC_1_OFFSET,
            InterruptIndex::Keyboard => PIC_1_OFFSET + 1,
        }
    }

    pub fn as_usize(self) -> (r: usize)
        ensures
            r == (match self {
                InterruptIndex::Timer => PIC_1_OFFSET as usize,
                InterruptIndex::Keyboard => (PIC_1_OFFSET as usize + 1) as usize,
            }),
    {
        self.as_u8() as usize
    }
}

/// What a descriptor-table entry routes its vector to.
#[derive(Clone, Copy, PartialEq, Eq, Structural, Debug)]
pub enum HandlerBinding {
    /// No handler installed; delivery here is a boot-order bug.
    Unbound,
    /// The default for every exception without defined recovery: logs the
    /// interrupted frame and halts.
    UnhandledException,
    /// Logs and resumes: the one resumable exception.
    Breakpoint,
    /// Logs the faulting address and the decoded error code, then halts.
    PageFault,
    /// Logs the interrupted frame and terminates, on the alternate stack.
    DoubleFault,
    /// Acknowledges the controller and steps the sleep countdown.
    Timer,
    /// Reads one scancode byte and feeds the decoder.
    Keyboard,
}

/// One descriptor-table entry: a handler and an optional alternate-stack
/// slot the CPU must switch to before running it.
#[derive(Clone, Copy, PartialEq, Eq, Structural, Debug)]
pub struct IdtEntry {
    pub handler: HandlerBinding,
    pub stack_index: Option<u16>,
}

/// The 256-entry interrupt descriptor table, built once at boot and
/// read-only after it is installed.
pub struct InterruptTable {
    pub entries: Vec<IdtEntry>,
}

impl InterruptTable {
    pub open spec fn wf(self) -> bool {
        self.entries@.len() == 256
    }
}

/// The stack the CPU switches to when it dispatches `vector`, if the
/// table asks for one.
pub open spec fn selected_stack(idt: InterruptTable, tss: TaskStateSegment, vector: u8) -> Option<
    u64,
> {
    match idt.entries@[vector as int].stack_index {
        Some(slot) => if slot < 7 {
            Some(tss.interrupt_stack_table@[slot as int])
        } else {
            None
        },
        None => None,
    }
}

/// Builds the boot descriptor table: the double-fault handler on the
/// reserved alternate stack, timer and keyboard on their remapped vectors,
/// breakpoint and page fault on theirs, every remaining exception vector
/// on the log-and-halt default, and the unused hardware vectors left
/// unbound.  Installing the table and unmasking the controller come after,
/// in that order; enabling CPU interrupt acceptance is always the last
/// boot step.
pub fn init() -> (r: InterruptTable)
    ensures
        r.wf(),
        r.entries@[DOUBLE_FAULT_VECTOR as int] == (IdtEntry {
            handler: HandlerBinding::DoubleFault,
            stack_index: Some(DOUBLE_FAULT_IST_INDEX),
        }),
        r.entries@[BREAKPOINT_VECTOR as int] == (IdtEntry {
            handler: HandlerBinding::Breakpoint,
            stack_index: None,
        }),
        r.entries@[PAGE_FAULT_VECTOR as int] == (IdtEntry {
            handler: HandlerBinding::PageFault,
            stack_index: None,
        }),
        r.entries@[PIC_1_OFFSET as int] == (IdtEntry {
            handler: HandlerBinding::Timer,
            stack_index: None,
        }),
        r.entries@[PIC_1_OFFSET as int + 1] == (IdtEntry {
            handler: HandlerBinding::Keyboard,
            stack_index: None,
        }),
        forall|v: int|
            0 <= v < 32 && v != DOUBLE_FAULT_VECTOR && v != BREAKPOINT_VECTOR && v
                != PAGE_FAULT_VECTOR ==> #[trigger] r.entries@[v] == (IdtEntry {
                handler: HandlerBinding::UnhandledException,
                stack_index: None,
            }),
        forall|v: int|
            PIC_1_OFFSET + 2 <= v < 256 ==> #[trigger] r.entries@[v] == (IdtEntry {
                handler: HandlerBinding::Unbound,
                stack_index: None,
            }),
{
    let mut entries: Vec<IdtEntry> = Vec::new();
    let mut i: usize = 0;
    while i < IDT_ENTRIES
        invariant
            i == entries@.len(),
            0 <= i <= 256,
            forall|j: int|
                0 <= j < i ==> #[trigger] entries@[j] == (IdtEntry {
                    handler: HandlerBinding::Unbound,
                    stack_index: None,
                }),
        decreases IDT_ENTRIES - i,
    {
        entries.push(IdtEntry { handler: HandlerBinding::Unbound, stack_index: None });
        i = i + 1;
    }
    let mut v: usize = 0;
    while v < 32
        invariant
            entries@.len() == 256,
            0 <= v <= 32,
            forall|j: int|
                0 <= j < v ==> #[trigger] entries@[j] == (IdtEntry {
                    handler: HandlerBinding::UnhandledException,
                    stack_index: None,
                }),
            forall|j: int|
                v <= j < 256 ==> #[trigger] entries@[j] == (IdtEntry {
                    handler: HandlerBinding::Unbound,
                    stack_index: None,
                }),
        decreases 32 - v,
    {
        entries[v] = IdtEntry { handler: HandlerBinding::UnhandledException, stack_index: None };
        v = v + 1;
    }
    entries[DOUBLE_FAULT_VECTOR as usize] = IdtEntry {
        handler: HandlerBinding::DoubleFault,
        stack_index: Some(DOUBLE_FAULT_IST_INDEX),
    };
    entries[BREAKPOINT_VECTOR as usize] = IdtEntry {
        handler: HandlerBinding::Breakpoint,
        stack_index: None,
    };
    entries[PAGE_FAULT_VECTOR as usize] = IdtEntry {
        handler: HandlerBinding::PageFault,
        stack_index: None,
    };
    entries[PIC_1_OFFSET as usize] = IdtEntry { handler: HandlerBinding::Timer, stack_index: None };
    entries[PIC_1_OFFSET as usize + 1] = IdtEntry {
        handler: HandlerBinding::Keyboard,
        stack_index: None,
    };
    InterruptTable { entries }
}

/// A double fault is dispatched on the reserved alternate stack, whose top
/// sits `DOUBLE_FAULT_STACK_SIZE` bytes above the reserved buffer, however
/// exhausted the interrupted stack was: the stack the CPU selects for the
/// double-fault vector depends only on the boot-built tables.  That the
/// handler's own diagnostic path fits in those bytes is a property of the
/// compiled handler, outside this model.
pub proof fn lemma_double_fault_runs_on_reserved_stack(
    idt: InterruptTable,
    tss: TaskStateSegment,
    stack_start: u64,
)
    requires
        idt.wf(),
        idt.entries@[DOUBLE_FAULT_VECTOR as int].stack_index == Some(DOUBLE_FAULT_IST_INDEX),
        tss.interrupt_stack_table@.len() == crate::gdt::IST_SLOTS,
        tss.interrupt_stack_table@[DOUBLE_FAULT_IST_INDEX as int] == stack_start
            + crate::gdt::DOUBLE_FAULT_STACK_SIZE,
        stack_start + crate::gdt::DOUBLE_FAULT_STACK_SIZE <= u64::MAX,
    ensures
        selected_stack(idt, tss, DOUBLE_FAULT_VECTOR) == Some(
            (stack_start + crate::gdt::DOUBLE_FAULT_STACK_SIZE) as u64,
        ),
{
}

/// The primary controller's mask with the timer and keyboard lines (bits 0
/// and 1) unmasked and every other line left as the firmware had it.
pub fn unmask_timer_and_keyboard(mask: u8) -> (r: u8)
    ensures
        r == mask & 0xfc,
{
    let r = mask & !(1u8 << 0) & !(1u8 << 1);
    proof {
        assert(mask & !(1u8 << 0) & !(1u8 << 1) == mask & 0xfc) by (bit_vector);
    }
    r
}

/// One countdown step: a positive counter decrements, an elapsed counter
/// stays at zero, so the counter never wraps below zero.
pub open spec fn tick_spec(r: u64) -> u64 {
    if r > 0 {
        (r - 1) as u64
    } else {
        0
    }
}

/// The counter after `k` timer ticks.
pub open spec fn after_ticks(r: u64, k: nat) -> u64
    decreases k,
{
    if k == 0 {
        r
    } else {
        tick_spec(after_ticks(r, (k - 1) as nat))
    }
}

/// The shared countdown that `sleep` polls and the timer handler steps.
pub struct SleepCounter {
    pub remaining: u64,
}

impl SleepCounter {
    pub fn new() -> (r: Self)
        ensures
            r.remaining == 0,
    {
        SleepCounter { remaining: 0 }
    }

    /// The timer handler's bookkeeping: step the countdown.  Acknowledging
    /// the controller afterwards is the hardware half of the handler.
    pub fn timer_tick(&mut self)
        ensures
            final(self).remaining == tick_spec(old(self).remaining),
    {
        if self.remaining > 0 {
            self.remaining = self.remaining - 1;
        }
    }

    /// Starts a sleep of `time_millis` ticks.
    pub fn sleep_start(&mut self, time_millis: u64)
        ensures
            final(self).remaining == time_millis,
    {
        self.remaining = time_millis;
    }

    /// Whether the wait is over.  The halt that waits for the next
    /// interrupt can wake for any reason, so the sleep loop re-checks this
    /// after every wakeup instead of assuming the timer fired.
    pub fn is_elapsed(&self) -> (r: bool)
        ensures
            r == (self.remaining == 0),
    {
        self.remaining == 0
    }
}

/// The countdown behind `sleep(n)` reaches exactly zero at the `n`-th tick
/// and not before, and never goes below zero; `sleep(0)` starts elapsed and
/// waits for no interrupt.
pub proof fn lemma_sleep_countdown(n: u64)
    ensures
        after_ticks(n, n as nat) == 0,
        forall|k: nat| k < n ==> after_ticks(n, k) > 0,
        after_ticks(0, 0) == 0,
{
    assert forall|k: nat| k <= n implies after_ticks(n, k) == n - k by {
        lemma_after_ticks_value(n, k);
    }
}

proof fn lemma_after_ticks_value(n: u64, k: nat)
    requires
        k <= n,
    ensures
        after_ticks(n, k) == n - k,
    decreases k,
{
    if k > 0 {
        lemma_after_ticks_value(n, (k - 1) as nat);
    }
}

/// The fields of a page-fault error code the fault handler logs before
/// halting: protection violation or not-present, write or read, and the
/// privilege level of the access.
#[derive(Clone, Copy, PartialEq, Eq, Structural, Debug)]
pub struct PageFaultInfo {
    pub protection_violation: bool,
    pub caused_by_write: bool,
    pub user_mode: bool,
}

/// Decodes the error code the CPU pushes with a page fault.
pub fn decode_page_fault_code(code: u64) -> (r: PageFaultInfo)
    ensures
        r.protection_violation == (code & 1 != 0),
        r.caused_by_write == (code & 2 != 0),
        r.user_mode == (code & 4 != 0),
{
    PageFaultInfo {
        protection_violation: code & 1 != 0,
        caused_by_write: code & 2 != 0,
        user_mode: code & 4 != 0,
    }
}

/// The single-slot input mailbox between the keyboard handler and whoever
/// reads console input.  An unconsumed character is overwritten and lost, a
/// documented limitation of the single slot.
pub struct InputMailbox {
    pub cur_char: Option<char>,
}

impl InputMailbox {
    pub fn new() -> (r: Self)
        ensures
            r.cur_char is None,
    {
        InputMailbox { cur_char: None }
    }

    /// The handler's store: a decoded character lands in the slot,
    /// overwriting an unconsumed one; no character leaves the slot alone.
    pub fn store_key(&mut self, key: Option<char>)
        ensures
            final(self).cur_char == (if key is Some {
                key
            } else {
                old(self).cur_char
            }),
    {
        if key.is_some() {
            self.cur_char = key;
        }
    }

    /// The consuming read on the other side of the mailbox: hands the slot
    /// over and empties it.
    pub fn take_char(&mut self) -> (r: Option<char>)
        ensures
            final(self).cur_char is None,
            r == old(self).cur_char,
    {
        let c = self.cur_char;
        self.cur_char = None;
        c
    }
}

/// Declares pc_keyboard::KeyEvent so the wrappers below can pass one
/// through; its insides stay opaque here.
#[verifier::external_type_specification]
#[verifier::external_body]
pub struct ExKeyEvent(pc_keyboard::KeyEvent);

/// Declares pc_keyboard::DecodedKey, the decoder's final verdict on a key.
#[verifier::external_type_specification]
#[verifier::external_body]
pub struct ExDecodedKey(pc_keyboard::DecodedKey);

/// Declares pc_keyboard::Error, the decoder's protocol-level failure.
#[verifier::external_type_specification]
#[verifier::external_body]
pub struct ExPcKeyboardError(pc_keyboard::Error);

/// The stateful scancode decoder the keyboard handler feeds, one byte per
/// interrupt.  It holds pc_keyboard's decoder; Verus refuses a declaration
/// of that type itself, as its generics are bounded by the crate's own
/// traits, so the field hides behind this opaque holder and the methods
/// below wrap the crate's calls one by one.
#[verifier::external_body]
pub struct KeyboardDecoder {
    inner: pc_keyboard::PS2Keyboard<pc_keyboard::layouts::Us104Key, pc_keyboard::ScancodeSet1>,
}

/// Relies on pc_keyboard::PS2Keyboard::add_byte: advances the multi-byte
/// scancode decoder by one byte; what comes back depends on the decoder's
/// accumulated state, so nothing more is assumed of it.
#[verifier::external_body]
fn kb_add_byte(kb: &mut KeyboardDecoder, byte: u8) -> (r: Result<
    Option<pc_keyboard::KeyEvent>,
    pc_keyboard::Error,
>) {
    kb.inner.add_byte(byte)
}

/// Relies on pc_keyboard::PS2Keyboard::process_keyevent: turns a key event
/// into a decoded key under the current modifier state.
#[verifier::external_body]
fn kb_process_keyevent(kb: &mut KeyboardDecoder, ev: pc_keyboard::KeyEvent) -> (r: Option<
    pc_keyboard::DecodedKey,
>) {
    kb.inner.process_keyevent(ev)
}

/// Relies on pc_keyboard::DecodedKey having exactly two variants: a decoded
/// Unicode character is handed through; a raw key code yields no character.
#[verifier::external_body]
fn key_to_char(key: pc_keyboard::DecodedKey) -> (r: Option<char>) {
    match key {
        pc_keyboard::DecodedKey::Unicode(c) => Some(c),
        pc_keyboard::DecodedKey::RawKey(_) => None,
    }
}

impl KeyboardDecoder {
    /// Relies on pc_keyboard::PS2Keyboard::new: a fresh scan-code-set-1
    /// decoder for the US 104-key layout that leaves control keys alone.
    #[verifier::external_body]
    pub fn new() -> Self {
        KeyboardDecoder {
            inner: pc_keyboard::PS2Keyboard::new(
                pc_keyboard::ScancodeSet1::new(),
                pc_keyboard::layouts::Us104Key,
                pc_keyboard::HandleControl::Ignore,
            ),
        }
    }

    /// The keyboard handler's work after the port read: feed the raw byte
    /// through the decoder, and if a printable character comes out, store
    /// it in the mailbox (overwriting an unconsumed one).  Whatever the
    /// decoder returns, the mailbox either keeps its old content or holds
    /// the character this byte completed, which is also returned.
    pub fn handle_scancode(&mut self, scancode: u8, mailbox: &mut InputMailbox) -> (r: Option<
        char,
    >)
        ensures
            final(mailbox).cur_char == (if r is Some {
                r
            } else {
                old(mailbox).cur_char
            }),
    {
        let key = match kb_add_byte(self, scancode) {
            Ok(Some(ev)) => match kb_process_keyevent(self, ev) {
                Some(k) => key_to_char(k),
                None => None,
            },
            _ => None,
        };
        mailbox.store_key(key);
        key
    }
}

} // verus!
