//! Core data structures and bit-level logic of a small x86-64 kernel:
//! fixed-capacity vectors, memory regions, fallible buffers, alignment,
//! page-table and descriptor encodings, a bump allocator, and a text-mode
//! VGA screen with a scrolling terminal on top of it.

pub mod common;
pub mod memory_map;
pub mod tty;
pub mod math;
pub mod simple_alloc;
pub mod segmentation;
pub mod idt;
pub mod tss;
pub mod paging;
