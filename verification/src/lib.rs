//! A verified CHIP-8 interpreter core: a 4096-byte memory, a small register
//! file with a call stack, a fetch-decode-execute cycle over the classic
//! instruction set, and a monochrome 64-by-32 framebuffer with XOR-composited
//! sprite drawing and a dirty-notification flag.
//!
//! The host that loads ROM images, presents the framebuffer and pumps the
//! cycle loop is an external collaborator; this crate holds the machine
//! semantics only.

pub mod chip8;
pub mod cpu;
pub mod display;
