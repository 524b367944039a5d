use butterscotch_core::console::Console;
use butterscotch_core::console::BORDER_PADDING;
use butterscotch_core::console::DEFAULT_BACKGROUND_COLOR;
use butterscotch_core::framebuffer::from_rgb;
use butterscotch_core::framebuffer::FrameBufferWriter;
use butterscotch_core::gdt;
use butterscotch_core::gdt::DOUBLE_FAULT_IST_INDEX;
use butterscotch_core::gdt::DOUBLE_FAULT_STACK_SIZE;
use butterscotch_core::interrupt;
use butterscotch_core::interrupt::HandlerBinding;
use butterscotch_core::interrupt::InputMailbox;
use butterscotch_core::interrupt::InterruptIndex;
use butterscotch_core::interrupt::KeyboardDecoder;
use butterscotch_core::interrupt::SleepCounter;
use butterscotch_core::interrupt::DOUBLE_FAULT_VECTOR;
use butterscotch_core::interrupt::PIC_1_OFFSET;
use butterscotch_core::interrupt::PIC_2_OFFSET;
use butterscotch_core::kernel;
use butterscotch_core::memory::MemoryRegion;
use butterscotch_core::memory::RegionKind;
use butterscotch_core::vga::Buffer;
use butterscotch_core::vga::Color;
use butterscotch_core::vga::TextColor;
use butterscotch_core::vga::Writer;
use butterscotch_core::vga::BUFFER_HEIGHT;

#[test]
fn exception_stack_slot_holds_the_stack_top() {
    let tss = gdt::init(0x4000_0000);
    assert_eq!(tss.interrupt_stack_table.len(), 7);
    assert_eq!(
        tss.interrupt_stack_table[DOUBLE_FAULT_IST_INDEX as usize],
        0x4000_0000 + DOUBLE_FAULT_STACK_SIZE
    );
    assert_eq!(tss.interrupt_stack_table[1], 0);
}

#[test]
fn double_fault_vector_uses_the_reserved_stack() {
    // A synthetic stack overflow raises a double fault; the table built at
    // boot sends that vector to the alternate stack slot, so the handler's
    // diagnostic runs on the reserved bytes regardless of the dead stack.
    let idt = interrupt::init();
    let tss = gdt::init(0x4000_0000);
    let entry = idt.entries[DOUBLE_FAULT_VECTOR as usize];
    assert_eq!(entry.handler, HandlerBinding::DoubleFault);
    assert_eq!(entry.stack_index, Some(DOUBLE_FAULT_IST_INDEX));
    let top = tss.interrupt_stack_table[entry.stack_index.unwrap() as usize];
    assert_eq!(top, 0x4000_0000 + DOUBLE_FAULT_STACK_SIZE);
}

#[test]
fn interrupt_table_binds_the_boot_vectors() {
    let idt = interrupt::init();
    assert_eq!(idt.entries.len(), 256);
    assert_eq!(idt.entries[3].handler, HandlerBinding::Breakpoint);
    assert_eq!(idt.entries[14].handler, HandlerBinding::PageFault);
    assert_eq!(idt.entries[32].handler, HandlerBinding::Timer);
    assert_eq!(idt.entries[33].handler, HandlerBinding::Keyboard);
    // Every remaining exception vector gets the log-and-halt default.
    assert_eq!(idt.entries[0].handler, HandlerBinding::UnhandledException);
    assert_eq!(idt.entries[13].handler, HandlerBinding::UnhandledException);
    assert_eq!(idt.entries[31].handler, HandlerBinding::UnhandledException);
    // Unused hardware vectors stay unbound.
    assert_eq!(idt.entries[34].handler, HandlerBinding::Unbound);
    assert_eq!(idt.entries[255].handler, HandlerBinding::Unbound);
}

#[test]
fn remapped_vectors_and_masks() {
    assert_eq!(PIC_1_OFFSET, 32);
    assert_eq!(PIC_2_OFFSET, 40);
    assert_eq!(InterruptIndex::Timer.as_u8(), 32);
    assert_eq!(InterruptIndex::Keyboard.as_u8(), 33);
    assert_eq!(InterruptIndex::Keyboard.as_usize(), 33);
    assert_eq!(interrupt::unmask_timer_and_keyboard(0xff), 0xfc);
    assert_eq!(interrupt::unmask_timer_and_keyboard(0xa5), 0xa4);
}

#[test]
fn page_fault_code_decodes_its_bits() {
    let info = interrupt::decode_page_fault_code(0b101);
    assert!(info.protection_violation);
    assert!(!info.caused_by_write);
    assert!(info.user_mode);
    let info2 = interrupt::decode_page_fault_code(0b010);
    assert!(!info2.protection_violation);
    assert!(info2.caused_by_write);
    assert!(!info2.user_mode);
}

#[test]
fn sleep_zero_starts_elapsed() {
    let mut c = SleepCounter::new();
    c.sleep_start(0);
    assert!(c.is_elapsed());
}

#[test]
fn sleep_counts_down_to_exactly_zero() {
    let mut c = SleepCounter::new();
    c.sleep_start(3);
    assert!(!c.is_elapsed());
    c.timer_tick();
    assert!(!c.is_elapsed());
    c.timer_tick();
    assert!(!c.is_elapsed());
    c.timer_tick();
    assert!(c.is_elapsed());
    assert_eq!(c.remaining, 0);
    // Further ticks never push the countdown below zero.
    c.timer_tick();
    assert_eq!(c.remaining, 0);
}

#[test]
fn extended_scancode_pair_decodes_one_key_event() {
    // The two-byte extended sequence 0xE0 0x35 is the keypad divide key:
    // the first byte produces no event, the second exactly one.
    let mut kb = KeyboardDecoder::new();
    let mut mailbox = InputMailbox::new();
    assert_eq!(kb.handle_scancode(0xE0, &mut mailbox), None);
    assert_eq!(mailbox.cur_char, None);
    assert_eq!(kb.handle_scancode(0x35, &mut mailbox), Some('/'));
    assert_eq!(mailbox.cur_char, Some('/'));
}

#[test]
fn mailbox_overwrites_unconsumed_characters() {
    let mut mailbox = InputMailbox::new();
    mailbox.store_key(Some('a'));
    mailbox.store_key(None);
    assert_eq!(mailbox.cur_char, Some('a'));
    mailbox.store_key(Some('b'));
    assert_eq!(mailbox.cur_char, Some('b'));
    assert_eq!(mailbox.take_char(), Some('b'));
    assert_eq!(mailbox.take_char(), None);
}

#[test]
fn boot_context_comes_up_in_order() {
    let map = vec![MemoryRegion { base: 0x100000, len: 0x1000000, kind: RegionKind::Usable }];
    let ctx = kernel::init(map, 0xFFFF_8000_0000_0000, 0x4000_0000, 0xff).unwrap();
    assert!(ctx.interrupts_enabled);
    assert_eq!(ctx.pic1_mask, 0xfc);
    assert_eq!(ctx.heap.claimed.unwrap().0, butterscotch_core::allocator::HEAP_START);
    assert_eq!(ctx.idt.entries[DOUBLE_FAULT_VECTOR as usize].stack_index, Some(0));
    assert_eq!(ctx.sleep.remaining, 0);
    assert_eq!(ctx.mailbox.cur_char, None);
}

#[test]
fn boot_fails_without_frames_and_claims_nothing() {
    let map = vec![MemoryRegion { base: 0, len: 0x1000, kind: RegionKind::Reserved }];
    let r = kernel::init(map, 0, 0x4000_0000, 0xff);
    assert!(r.is_err());
}

#[test]
fn vga_colors_pack_as_the_hardware_reads_them() {
    assert_eq!(TextColor::new(Color::White, Color::Black).0, 15);
    assert_eq!(TextColor::new(Color::Yellow, Color::Blue).0, 16 + 14);
    assert_eq!(Color::LightGray.as_u8(), 7);
}

#[test]
fn vga_writer_prints_on_the_bottom_row() {
    let mut w = Writer::new(TextColor::new(Color::White, Color::Black));
    w.write_string("Some test string that fits on a single line\n");
    let s = "Some test string that fits on a single line";
    for (i, c) in s.bytes().enumerate() {
        let cell = w.buffer.get(i, BUFFER_HEIGHT - 2);
        assert_eq!(cell.ascii_character, c);
    }
    assert_eq!(w.x_position, 0);
}

#[test]
fn vga_writer_backspace_blanks_the_cell() {
    let mut w = Writer::new(TextColor::new(Color::White, Color::Black));
    w.write_string("ab");
    assert_eq!(w.x_position, 2);
    w.backspace();
    assert_eq!(w.x_position, 1);
    assert_eq!(w.buffer.get(1, BUFFER_HEIGHT - 1).ascii_character, b' ');
    assert_eq!(w.buffer.get(0, BUFFER_HEIGHT - 1).ascii_character, b'a');
}

#[test]
fn vga_writer_replaces_unprintable_bytes() {
    let mut w = Writer::new(TextColor::new(Color::White, Color::Black));
    w.write_string("\u{7f}");
    assert_eq!(w.buffer.get(0, BUFFER_HEIGHT - 1).ascii_character, 0xfe);
}

#[test]
fn vga_buffer_write_and_get_roundtrip() {
    let mut w = Writer::new(TextColor::new(Color::White, Color::Black));
    let cell = butterscotch_core::vga::ScreenCharacter {
        ascii_character: b'Q',
        text_color: TextColor::new(Color::Red, Color::Black),
    };
    w.buffer.write(5, 7, cell);
    assert_eq!(w.buffer.get(5, 7), cell);
}

#[test]
fn framebuffer_primitives() {
    assert_eq!(from_rgb(255, 0, 20), 0xFF0014);
    assert_eq!(from_rgb(20, 20, 20), DEFAULT_BACKGROUND_COLOR);
    let mut fb = FrameBufferWriter::new(10, 4);
    assert_eq!(fb.width(), 10);
    assert_eq!(fb.height(), 4);
    fb.set_pixel(3, 2, 0x123456);
    assert_eq!(fb.pixels[2 * 10 + 3], 0x123456);
    // Out-of-bounds coordinates draw nothing.
    fb.set_pixel(10, 0, 0xDEAD);
    assert!(fb.pixels.iter().all(|p| *p != 0xDEAD));
    fb.fill_rect(8, 2, 5, 5, 7);
    assert_eq!(fb.pixels[3 * 10 + 9], 7);
    assert_eq!(fb.pixels[0], 0);
    fb.clear(1);
    assert!(fb.pixels.iter().all(|p| *p == 1));
}

#[test]
fn console_cursor_moves_and_clears() {
    let fb = FrameBufferWriter::new(100, 60);
    let mut con = Console::new(fb);
    assert_eq!(con.x_pos, BORDER_PADDING);
    con.write_char('\n');
    assert_eq!(con.y_pos, BORDER_PADDING + 16 + 2);
    con.x_pos = 50;
    con.write_char('\r');
    assert_eq!(con.x_pos, BORDER_PADDING);
    con.clear_screen();
    assert_eq!(con.y_pos, BORDER_PADDING);
    assert!(con.fb.pixels.iter().all(|p| *p == DEFAULT_BACKGROUND_COLOR));
}

#[test]
fn console_stamps_glyphs_and_advances() {
    let fb = FrameBufferWriter::new(100, 60);
    let mut con = Console::new(fb);
    // A minimal glyph store: every code gets a 16x7 block of one color.
    let glyph: Vec<Vec<u32>> = (0..16).map(|_| vec![0xABCDE; 7]).collect();
    let chars: Vec<Vec<Vec<u32>>> = (0..128).map(|_| glyph.clone()).collect();
    con.render_chars(chars);
    let x0 = con.x_pos;
    let y0 = con.y_pos;
    con.write_char('A');
    assert_eq!(con.x_pos, x0 + 7);
    assert_eq!(con.fb.pixels[y0 * 100 + x0], 0xABCDE);
    assert_eq!(con.fb.pixels[(y0 + 15) * 100 + (x0 + 6)], 0xABCDE);
}

#[test]
fn console_wraps_at_the_right_edge() {
    let fb = FrameBufferWriter::new(20, 300);
    let mut con = Console::new(fb);
    con.x_pos = 15;
    let y0 = con.y_pos;
    con.write_char('x');
    // 15 + 7 >= 20: the character went to a fresh line.
    assert_eq!(con.y_pos, y0 + 16 + 2);
    assert_eq!(con.x_pos, BORDER_PADDING);
}
