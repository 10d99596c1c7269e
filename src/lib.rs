//! A CHIP-8 interpreter core: memory, registers, call stack, timers, a
//! monochrome display buffer and a sixteen-key keypad, driven one
//! fetch-decode-execute cycle at a time.
//!
//! `semantics` states what every instruction does, over plain values;
//! `machine` runs it and is proved to match; `laws` proves properties that
//! span several instructions or cycles.
mod display;
mod instruction;
mod keypad;
mod laws;
mod machine;
mod semantics;

pub use display::{Frame, Video, SCREEN_HEIGHT, SCREEN_SIZE, SCREEN_WIDTH};
pub use instruction::{decode, Instruction};
pub use keypad::{keypad_index_for_keycode, Keypad, KEY_COUNT};
pub use machine::{Chip8, Media};
pub use semantics::{
    MachineFault, Outcome, ResourceFault, FLAG, FONTSET_SIZE, MEMORY_SIZE, REGISTER_COUNT,
    STACK_DEPTH, START_ADDRESS,
};
