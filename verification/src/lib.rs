//! PlayStation emulator core: CPU, memory map, DMA, timers, CD-ROM
//! controller, motion decoder, gamepads and debugging helpers.

pub mod text;
pub mod tracer;
pub mod memory;
pub mod assembler;
pub mod timekeeper;
pub mod shared;
pub mod cdrom;
pub mod cpu;
pub mod spu;
pub mod debug_uart;
pub mod parallel_io;
pub mod mdec;
pub mod padmemcard;
pub mod debugger;
pub mod hardware;
