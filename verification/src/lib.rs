//! A CHIP-8 virtual machine: instruction decoding, execution, timers and the text
//! picture of the display, with contracts proved by Verus.

pub mod chip8;
pub mod effects;
pub mod instruction;
pub mod laws;
pub mod machine;
mod random;
pub mod sprite;
pub mod tab;

pub use chip8::Chip8;
pub use instruction::Instruction;
pub use tab::Chip8Tab;
