//! Bootstrap protection-and-memory core of a small bare-metal kernel.
//!
//! The crate models and verifies the logic that runs before any safe
//! abstraction exists: physical frame allocation from the firmware memory
//! map, the four-level virtual-to-physical page mapping, the alternate
//! exception stack, interrupt dispatch and the heap-backing handshake with
//! the dynamic allocator.  Hardware register writes, port input and output,
//! and the actual CPU table loads live outside this crate; everything here
//! is plain data and is checked by Verus.

pub mod memory;
pub mod paging;
pub mod allocator;
pub mod gdt;
pub mod interrupt;
pub mod kernel;
pub mod io;
pub mod ramfile;
pub mod fs;
pub mod ramfs;
pub mod fat32;
pub mod vga;
pub mod framebuffer;
pub mod console;
pub mod stdio;
pub mod shell;
