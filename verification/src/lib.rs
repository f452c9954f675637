//! The console I/O core of a small bare-metal kernel: the path from a raw
//! keyboard scancode to a completed line of input, and the path from
//! application text onto the memory-mapped text display — plus the
//! in-memory filesystem the shell works against.
//!
//! The hardware ends of those paths (installing interrupt handlers, the
//! keyboard port, the interrupt controller, the display's fixed address,
//! the low-power wait) belong to the surrounding kernel; this library holds
//! the state and the rules: the scancode decoder's filtering, the input
//! queue, the display grid with its scrolling and colors, the line editor,
//! and the directory tree.

pub mod console;
pub mod fs;
pub mod interrupts;
pub mod keyboard;
pub mod shell;
pub mod vga_buffer;

pub use vga_buffer::Color;
pub use vga_buffer::ColorCode;
