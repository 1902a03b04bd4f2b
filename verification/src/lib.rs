//! A small cooperative kernel: a process table with a round-robin
//! scheduler, byte pipes, an in-memory file abstraction behind integer
//! descriptors, and the system-call dispatcher that ties them together;
//! around this core a page allocator, the core utilities, the loader of
//! user programs, and a desktop shell with its graphics, its input and
//! its display protocol.
//!
//! Every table is an owned value that is handed to the operations that need
//! it; nothing in this crate keeps ambient global state, takes a lock or
//! touches a device. Each table has an abstract state, its view, and the
//! contract of each operation gives the answer and the state afterwards as
//! functions of the state before.

pub mod collections;
pub mod coreutils;
pub mod cosmic;
pub mod error;
pub mod fs;
pub mod graphics;
pub mod input;
pub mod ipc;
pub mod memory;
pub mod process;
pub mod syscall;
pub mod uart;
pub mod userspace;
pub mod wayland;
