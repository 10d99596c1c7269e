use vstd::prelude::*;

use crate::display::{Frame, SCREEN_SIZE};
use crate::instruction::{decode_spec, Instruction};
use crate::keypad::{first_key_from, key_down, KEY_COUNT};

verus! {

pub const MEMORY_SIZE: usize = 4096;

pub const STACK_DEPTH: usize = 16;

pub const REGISTER_COUNT: usize = 16;

/// Where programs are loaded and where execution starts.
pub const START_ADDRESS: usize = 0x200;

/// Bytes taken by the built-in font: sixteen glyphs of five bytes each.
pub const FONTSET_SIZE: usize = 0x50;

/// The flag register `VF`.
pub const FLAG: usize = 15;

/// The whole machine as plain values.
pub struct MachineState {
    pub pc: u16,
    pub index: u16,
    pub sp: u16,
    pub v: Seq<u8>,
    pub memory: Seq<u8>,
    pub stack: Seq<u16>,
    pub delay: u8,
    pub sound: u8,
    pub frame: Frame,
    pub keys: Seq<bool>,
}

/// The sizes are the machine's and the stack pointer stays within the stack.
pub open spec fn machine_ok(s: MachineState) -> bool {
    &&& s.v.len() == REGISTER_COUNT
    &&& s.memory.len() == MEMORY_SIZE
    &&& s.stack.len() == STACK_DEPTH
    &&& s.sp <= STACK_DEPTH
    &&& s.frame.pixels.len() == SCREEN_SIZE
    &&& s.keys.len() == KEY_COUNT
}

/// A condition that ends the running program.
#[derive(Clone, Copy, Debug, PartialEq, Eq, Structural)]
pub enum MachineFault {
    /// The program counter left the program region (`0x200` up to the last
    /// two bytes of memory).
    PcOutOfRange,
    /// A call found all sixteen stack slots in use.
    StackOverflow,
    /// A return found the stack empty.
    StackUnderflow,
    /// An instruction would read or write memory past its end.
    AddressOutOfRange,
}

/// A program that cannot be loaded.
#[derive(Clone, Copy, Debug, PartialEq, Eq, Structural)]
pub enum ResourceFault {
    /// The bytes do not fit between the load offset and the end of memory.
    RomTooLarge,
}

/// What an instruction that ran has to tell the outside.
#[derive(Clone, Copy, Debug, PartialEq, Eq, Structural)]
pub enum Outcome {
    Executed,
    /// The sound timer went from zero to non-zero: start the tone.
    SoundStarted,
    /// The sound timer was set to zero while running: stop the tone.
    SoundStopped,
    /// The opcode is no instruction; it did nothing.
    DecodeWarning { opcode: u16 },
}

/// The glyphs of the hex digits `0` to `F`, five rows of four pixels each.
pub open spec fn font_spec() -> Seq<u8> {
    seq![
        0xF0u8, 0x90, 0x90, 0x90, 0xF0, 0x20, 0x60, 0x20, 0x20, 0x70,
        0xF0, 0x10, 0xF0, 0x80, 0xF0, 0xF0, 0x10, 0xF0, 0x10, 0xF0,
        0x90, 0x90, 0xF0, 0x10, 0x10, 0xF0, 0x80, 0xF0, 0x10, 0xF0,
        0xF0, 0x80, 0xF0, 0x90, 0xF0, 0xF0, 0x10, 0x20, 0x40, 0x40,
        0xF0, 0x90, 0xF0, 0x90, 0xF0, 0xF0, 0x90, 0xF0, 0x10, 0xF0,
        0xF0, 0x90, 0xF0, 0x90, 0x90, 0xE0, 0x90, 0xE0, 0x90, 0xE0,
        0xF0, 0x80, 0x80, 0x80, 0xF0, 0xE0, 0x90, 0x90, 0x90, 0xE0,
        0xF0, 0x80, 0xF0, 0x80, 0xF0, 0xF0, 0x80, 0xF0, 0x80, 0x80,
    ]
}

/// `mem` with `bytes` written from address `offset` on.
pub open spec fn write_bytes(mem: Seq<u8>, offset: int, bytes: Seq<u8>) -> Seq<u8> {
    Seq::new(
        mem.len(),
        |a: int|
            if offset <= a < offset + bytes.len() {
                bytes[a - offset]
            } else {
                mem[a]
            },
    )
}

/// The machine ready to run `rom`: font at address 0, program at
/// `START_ADDRESS`, program counter on its first instruction.
pub open spec fn loaded(s: MachineState, rom: Seq<u8>) -> MachineState {
    MachineState {
        memory: write_bytes(write_bytes(s.memory, 0, font_spec()), START_ADDRESS as int, rom),
        pc: START_ADDRESS as u16,
        ..s
    }
}

/// Adds `d` to a 16-bit register value, wrapping around.
pub open spec fn add16(a: u16, d: int) -> u16 {
    ((a as int + d) % 0x10000) as u16
}

/// The opcode at the program counter, high byte first; none where the
/// program counter is outside the program region.
pub open spec fn fetch_spec(s: MachineState) -> Option<u16> {
    if s.pc < START_ADDRESS || s.pc as int + 1 >= MEMORY_SIZE {
        None
    } else {
        Some((s.memory[s.pc as int] as int * 256 + s.memory[s.pc as int + 1] as int) as u16)
    }
}

/// `s` with the program counter past the instruction it points at.
pub open spec fn advance(s: MachineState) -> MachineState {
    MachineState { pc: add16(s.pc, 2), ..s }
}

pub open spec fn set_reg(s: MachineState, r: int, val: u8) -> MachineState {
    MachineState { v: s.v.update(r, val), ..s }
}

pub open spec fn skip_if(s: MachineState, c: bool) -> MachineState {
    if c {
        advance(s)
    } else {
        s
    }
}

/// `1` when `c` holds, else `0`.
pub open spec fn flag(c: bool) -> u8 {
    if c {
        1
    } else {
        0
    }
}

/// The sprite column that screen cell `p` falls on, for a sprite whose
/// top-left corner is at `(x0, y0)`.
pub open spec fn sprite_col(p: int, x0: int) -> int {
    (p % 64 - x0) % 64
}

/// The sprite row that screen cell `p` falls on.
pub open spec fn sprite_row(p: int, y0: int) -> int {
    (p / 64 - y0) % 32
}

/// Whether the `n`-row sprite read from `index` and drawn with its corner at
/// `(x0, y0)` has a set bit over screen cell `p`. Sprites wrap around the
/// screen edges; each row is one byte, its high bit leftmost.
pub open spec fn sprite_covers(mem: Seq<u8>, index: int, n: int, x0: int, y0: int, p: int) -> bool {
    let col = sprite_col(p, x0);
    let row = sprite_row(p, y0);
    row < n && col < 8 && mem[index + row] & (0x80u8 >> (col as u8)) != 0
}

/// `DXYN`: every cell under a set sprite bit is toggled; `VF` tells whether
/// some pixel that was on went off.
pub open spec fn draw_spec(s: MachineState, x: int, y: int, n: int) -> MachineState {
    let x0 = s.v[x] % 64;
    let y0 = s.v[y] % 32;
    let pixels = Seq::new(
        SCREEN_SIZE as nat,
        |p: int| s.frame.pixels[p] != sprite_covers(s.memory, s.index as int, n, x0 as int, y0 as int, p),
    );
    let hit = exists|p: int|
        0 <= p < SCREEN_SIZE && s.frame.pixels[p] && #[trigger] sprite_covers(
            s.memory,
            s.index as int,
            n,
            x0 as int,
            y0 as int,
            p,
        );
    MachineState { frame: Frame { pixels, dirty: true }, v: s.v.update(FLAG as int, flag(hit)), ..s }
}

/// The fault that `ins` meets in state `s`, if any.
pub open spec fn fault_of(s: MachineState, ins: Instruction) -> Option<MachineFault> {
    match ins {
        Instruction::Return => if s.sp == 0 {
            Some(MachineFault::StackUnderflow)
        } else {
            None
        },
        Instruction::Call { .. } => if s.sp >= STACK_DEPTH {
            Some(MachineFault::StackOverflow)
        } else {
            None
        },
        Instruction::Draw { n, .. } => if s.index as int + n as int > MEMORY_SIZE {
            Some(MachineFault::AddressOutOfRange)
        } else {
            None
        },
        Instruction::StoreBcd { .. } => if s.index as int + 3 > MEMORY_SIZE {
            Some(MachineFault::AddressOutOfRange)
        } else {
            None
        },
        Instruction::StoreRegs { x } | Instruction::LoadRegs { x } => if s.index as int + x as int
            + 1 > MEMORY_SIZE {
            Some(MachineFault::AddressOutOfRange)
        } else {
            None
        },
        _ => None,
    }
}

/// What `ins` reports when it runs in state `s`.
pub open spec fn outcome_of(s: MachineState, ins: Instruction) -> Outcome {
    match ins {
        Instruction::SetSound { x } => if s.sound == 0 && s.v[x as int] != 0 {
            Outcome::SoundStarted
        } else if s.sound != 0 && s.v[x as int] == 0 {
            Outcome::SoundStopped
        } else {
            Outcome::Executed
        },
        Instruction::Unknown { opcode } => Outcome::DecodeWarning { opcode },
        _ => Outcome::Executed,
    }
}

/// The state after `ins` runs in state `s` without a fault; `r` is the
/// random byte that `CXKK` uses.
pub open spec fn apply(s: MachineState, ins: Instruction, r: u8) -> MachineState {
    match ins {
        Instruction::ClearScreen => MachineState {
            frame: Frame { pixels: Seq::new(SCREEN_SIZE as nat, |p: int| false), dirty: true },
            ..s
        },
        Instruction::Return => MachineState {
            sp: (s.sp - 1) as u16,
            pc: s.stack[s.sp - 1],
            ..s
        },
        Instruction::Jump { nnn } => MachineState { pc: nnn, ..s },
        Instruction::Call { nnn } => MachineState {
            stack: s.stack.update(s.sp as int, s.pc),
            sp: (s.sp + 1) as u16,
            pc: nnn,
            ..s
        },
        Instruction::SkipIfEqualImm { x, kk } => skip_if(s, s.v[x as int] == kk),
        Instruction::SkipIfNotEqualImm { x, kk } => skip_if(s, s.v[x as int] != kk),
        Instruction::SkipIfEqualReg { x, y } => skip_if(s, s.v[x as int] == s.v[y as int]),
        Instruction::LoadImm { x, kk } => set_reg(s, x as int, kk),
        Instruction::AddImm { x, kk } => set_reg(s, x as int, ((s.v[x as int] + kk) % 256) as u8),
        Instruction::Move { x, y } => set_reg(s, x as int, s.v[y as int]),
        Instruction::Or { x, y } => set_reg(s, x as int, s.v[x as int] | s.v[y as int]),
        Instruction::And { x, y } => set_reg(s, x as int, s.v[x as int] & s.v[y as int]),
        Instruction::Xor { x, y } => set_reg(s, x as int, s.v[x as int] ^ s.v[y as int]),
        Instruction::AddReg { x, y } => {
            let sum = s.v[x as int] + s.v[y as int];
            set_reg(set_reg(s, x as int, (sum % 256) as u8), FLAG as int, flag(sum > 255))
        },
        Instruction::SubReg { x, y } => {
            let a = s.v[x as int];
            let b = s.v[y as int];
            set_reg(set_reg(s, x as int, ((a - b) % 256) as u8), FLAG as int, flag(a >= b))
        },
        Instruction::ShiftRight { x, .. } => {
            let a = s.v[x as int];
            set_reg(set_reg(s, FLAG as int, a % 2), x as int, a / 2)
        },
        Instruction::SubReverse { x, y } => {
            let a = s.v[x as int];
            let b = s.v[y as int];
            set_reg(set_reg(s, x as int, ((b - a) % 256) as u8), FLAG as int, flag(b >= a))
        },
        Instruction::ShiftLeft { x, .. } => {
            let a = s.v[x as int];
            set_reg(set_reg(s, FLAG as int, a / 128), x as int, ((a * 2) % 256) as u8)
        },
        Instruction::SkipIfNotEqualReg { x, y } => skip_if(s, s.v[x as int] != s.v[y as int]),
        Instruction::LoadIndex { nnn } => MachineState { index: nnn, ..s },
        Instruction::JumpOffset { nnn } => MachineState { pc: (nnn + s.v[0]) as u16, ..s },
        Instruction::Random { x, kk } => set_reg(s, x as int, r & kk),
        Instruction::Draw { x, y, n } => draw_spec(s, x as int, y as int, n as int),
        Instruction::SkipIfKey { x } => skip_if(s, key_down(s.keys, s.v[x as int] as int)),
        Instruction::SkipIfNotKey { x } => skip_if(s, !key_down(s.keys, s.v[x as int] as int)),
        Instruction::ReadDelay { x } => set_reg(s, x as int, s.delay),
        Instruction::WaitKey { x } => match first_key_from(s.keys, 0) {
            Some(k) => set_reg(s, x as int, k),
            None => MachineState { pc: add16(s.pc, -2), ..s },
        },
        Instruction::SetDelay { x } => MachineState { delay: s.v[x as int], ..s },
        Instruction::SetSound { x } => MachineState { sound: s.v[x as int], ..s },
        Instruction::AddIndex { x } => MachineState { index: add16(s.index, s.v[x as int] as int), ..s },
        Instruction::FontGlyph { x } => MachineState { index: ((s.v[x as int] % 16) * 5) as u16, ..s },
        Instruction::StoreBcd { x } => {
            let a = s.v[x as int];
            MachineState {
                memory: write_bytes(s.memory, s.index as int, seq![a / 100, (a / 10) % 10, a % 10]),
                ..s
            }
        },
        Instruction::StoreRegs { x } => MachineState {
            memory: write_bytes(s.memory, s.index as int, s.v.take(x as int + 1)),
            ..s
        },
        Instruction::LoadRegs { x } => MachineState {
            v: Seq::new(
                REGISTER_COUNT as nat,
                |i: int|
                    if i <= x {
                        s.memory[s.index as int + i]
                    } else {
                        s.v[i]
                    },
            ),
            ..s
        },
        Instruction::Unknown { .. } => s,
    }
}

/// Runs `ins` in state `s`: the next state and what is reported. A fault
/// leaves the state as it was.
pub open spec fn execute_spec(s: MachineState, ins: Instruction, r: u8) -> (MachineState, Result<Outcome, MachineFault>) {
    match fault_of(s, ins) {
        Some(f) => (s, Err(f)),
        None => (apply(s, ins, r), Ok(outcome_of(s, ins))),
    }
}

/// One cycle: fetch the opcode at the program counter, step past it, then
/// decode and execute it.
pub open spec fn cycle_spec(s: MachineState, r: u8) -> (MachineState, Result<Outcome, MachineFault>) {
    match fetch_spec(s) {
        None => (s, Err(MachineFault::PcOutOfRange)),
        Some(op) => execute_spec(advance(s), decode_spec(op), r),
    }
}

/// One timer tick: each non-zero timer counts down by one.
pub open spec fn tick_spec(s: MachineState) -> MachineState {
    MachineState {
        delay: if s.delay > 0 { (s.delay - 1) as u8 } else { 0 },
        sound: if s.sound > 0 { (s.sound - 1) as u8 } else { 0 },
        ..s
    }
}

} // verus!
