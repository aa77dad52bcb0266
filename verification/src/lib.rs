//! A verified CHIP-8 virtual machine core.
//!
//! The library models the machine state (4 KiB of memory, sixteen 8-bit
//! registers, a 16-level call stack, an index register and two countdown
//! timers), decodes fixed-width 16-bit instructions, and executes them one
//! at a time. The display is a 64x32 monochrome bitmap mutated only by
//! XOR-blits. Peripheral plumbing (window, pixel surface, keyboard events)
//! lives outside the library and talks to it through plain values.

pub mod decode;
pub mod machine;
pub mod monitor;
pub mod ops;
pub mod step;

pub use decode::Instr;
pub use machine::Chip8;
pub use machine::MachineView;
pub use monitor::Monitor;
pub use step::Fault;
pub use step::FaultKind;
pub use step::Outcome;
