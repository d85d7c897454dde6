//! A CHIP-8 interpreter core: instruction decoding, the executor, the
//! 60 Hz timer tick and the keypad, each stated against a mathematical model.

pub mod decode;
pub mod execute;
pub mod keypad;
pub mod laws;
pub mod machine;
pub mod sprite;

pub use decode::{decode, Instruction};
pub use execute::{Fault, Outcome};
pub use keypad::{keypad_value, KeySnapshot, PhysicalKey};
pub use machine::{LoadError, CHIP8};
