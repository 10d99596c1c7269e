use vstd::prelude::*;

use crate::display::{lemma_video_size, pixel_index, Frame, Video, SCREEN_SIZE};
use crate::instruction::{decode, decode_spec, operands_ok, Instruction};
use crate::keypad::{lemma_keypad_size, Keypad, KEY_COUNT};
use crate::semantics::{
    advance, apply, cycle_spec, draw_spec, execute_spec, fetch_spec, font_spec, loaded,
    machine_ok, sprite_col, sprite_covers, sprite_row, tick_spec, write_bytes, MachineFault,
    MachineState, Outcome, ResourceFault, FLAG, FONTSET_SIZE, MEMORY_SIZE, REGISTER_COUNT,
    STACK_DEPTH, START_ADDRESS,
};

verus! {

broadcast use {lemma_video_size, lemma_keypad_size};

/// Relies on rand::random: a byte from the thread-local generator. Nothing
/// is known of its value.
#[verifier::external_body]
fn random_byte() -> (r: u8) {
    rand::random::<u8>()
}

struct Cpu {
    pc: u16,
    index: u16,
    sp: u16,
    v: [u8; REGISTER_COUNT],
}

struct Memory {
    memory: [u8; MEMORY_SIZE],
    stack: [u16; STACK_DEPTH],
}

struct Timers {
    delay: u8,
    sound: u8,
}

/// What the machine shares with the outside: the screen it draws on and the
/// keys it reads.
pub struct Media {
    pub display: Video,
    pub keypad: Keypad,
}

pub struct Chip8 {
    cpu: Cpu,
    memory: Memory,
    timers: Timers,
    pub media: Media,
}

impl View for Chip8 {
    type V = MachineState;

    closed spec fn view(&self) -> MachineState {
        MachineState {
            pc: self.cpu.pc,
            index: self.cpu.index,
            sp: self.cpu.sp,
            v: self.cpu.v@,
            memory: self.memory.memory@,
            stack: self.memory.stack@,
            delay: self.timers.delay,
            sound: self.timers.sound,
            frame: self.media.display@,
            keys: self.media.keypad@,
        }
    }
}

fn fontset() -> (r: [u8; FONTSET_SIZE])
    ensures
        r@ == font_spec(),
{
    let r: [u8; FONTSET_SIZE] = [
        0xF0, 0x90, 0x90, 0x90, 0xF0, // 0
        0x20, 0x60, 0x20, 0x20, 0x70, // 1
        0xF0, 0x10, 0xF0, 0x80, 0xF0, // 2
        0xF0, 0x10, 0xF0, 0x10, 0xF0, // 3
        0x90, 0x90, 0xF0, 0x10, 0x10, // 4
        0xF0, 0x80, 0xF0, 0x10, 0xF0, // 5
        0xF0, 0x80, 0xF0, 0x90, 0xF0, // 6
        0xF0, 0x10, 0x20, 0x40, 0x40, // 7
        0xF0, 0x90, 0xF0, 0x90, 0xF0, // 8
        0xF0, 0x90, 0xF0, 0x10, 0xF0, // 9
        0xF0, 0x90, 0xF0, 0x90, 0x90, // A
        0xE0, 0x90, 0xE0, 0x90, 0xE0, // B
        0xF0, 0x80, 0x80, 0x80, 0xF0, // C
        0xE0, 0x90, 0x90, 0x90, 0xE0, // D
        0xF0, 0x80, 0xF0, 0x80, 0xF0, // E
        0xF0, 0x80, 0xF0, 0x80, 0x80, // F
    ];
    assert(r@ =~= font_spec());
    r
}

impl Chip8 {
    /// A machine with everything zeroed: memory, registers, stack, timers,
    /// screen and keys.
    pub fn new() -> (r: Self)
        ensures
            machine_ok(r@),
            r@.pc == 0 && r@.index == 0 && r@.sp == 0,
            r@.v == Seq::new(REGISTER_COUNT as nat, |i: int| 0u8),
            r@.memory == Seq::new(MEMORY_SIZE as nat, |i: int| 0u8),
            r@.stack == Seq::new(STACK_DEPTH as nat, |i: int| 0u16),
            r@.delay == 0 && r@.sound == 0,
            r@.frame.pixels == Seq::new(SCREEN_SIZE as nat, |p: int| false),
            !r@.frame.dirty,
            r@.keys == Seq::new(KEY_COUNT as nat, |i: int| false),
    {
        let r = Chip8 {
            cpu: Cpu { pc: 0, index: 0, sp: 0, v: [0; REGISTER_COUNT] },
            memory: Memory { memory: [0; MEMORY_SIZE], stack: [0; STACK_DEPTH] },
            timers: Timers { delay: 0, sound: 0 },
            media: Media { display: Video::new(), keypad: Keypad::new() },
        };
        assert(r@.v =~= Seq::new(REGISTER_COUNT as nat, |i: int| 0u8));
        assert(r@.memory =~= Seq::new(MEMORY_SIZE as nat, |i: int| 0u8));
        assert(r@.stack =~= Seq::new(STACK_DEPTH as nat, |i: int| 0u16));
        r
    }

    /// Copies `rom` into memory from address `offset` on. Fails, changing
    /// nothing, where it would run past the end of memory.
    pub fn load_rom(&mut self, rom: &Vec<u8>, offset: usize) -> (r: Result<(), ResourceFault>)
        requires
            machine_ok(old(self)@),
        ensures
            machine_ok(final(self)@),
            r is Err <==> offset + rom@.len() > MEMORY_SIZE,
            r is Err ==> r == Err::<(), ResourceFault>(ResourceFault::RomTooLarge) && final(self)@ == old(self)@,
            r is Ok ==> final(self)@ == (MachineState {
                memory: write_bytes(old(self)@.memory, offset as int, rom@),
                ..old(self)@
            }),
    {
        if offset > MEMORY_SIZE || rom.len() > MEMORY_SIZE - offset {
            return Err(ResourceFault::RomTooLarge);
        }
        let ghost s0 = self@;
        assert(write_bytes(s0.memory, offset as int, rom@.take(0)) =~= s0.memory);
        let mut i: usize = 0;
        while i < rom.len()
            invariant
                i <= rom.len(),
                offset + rom@.len() <= MEMORY_SIZE,
                machine_ok(s0),
                self@ == (MachineState {
                    memory: write_bytes(s0.memory, offset as int, rom@.take(i as int)),
                    ..s0
                }),
            decreases rom.len() - i,
        {
            self.memory.memory[offset + i] = rom[i];
            proof {
                assert(self@.memory =~= write_bytes(s0.memory, offset as int, rom@.take(i + 1)));
            }
            i = i + 1;
        }
        assert(rom@.take(rom.len() as int) =~= rom@);
        Ok(())
    }

    /// Loads the font into low memory and `rom` at `START_ADDRESS`, and points
    /// the program counter at the program. A program larger than the memory
    /// above `START_ADDRESS` is refused and nothing changes.
    pub fn load_and_init(&mut self, rom: &Vec<u8>) -> (r: Result<(), ResourceFault>)
        requires
            machine_ok(old(self)@),
        ensures
            machine_ok(final(self)@),
            r is Err <==> rom@.len() > MEMORY_SIZE - START_ADDRESS,
            r is Err ==> r == Err::<(), ResourceFault>(ResourceFault::RomTooLarge) && final(self)@ == old(self)@,
            r is Ok ==> final(self)@ == loaded(old(self)@, rom@),
    {
        if rom.len() > MEMORY_SIZE - START_ADDRESS {
            return Err(ResourceFault::RomTooLarge);
        }
        let font = fontset();
        let ghost s0 = self@;
        assert(write_bytes(s0.memory, 0, font_spec().take(0)) =~= s0.memory);
        let mut i: usize = 0;
        while i < FONTSET_SIZE
            invariant
                i <= FONTSET_SIZE,
                machine_ok(s0),
                font@ == font_spec(),
                self@ == (MachineState {
                    memory: write_bytes(s0.memory, 0, font_spec().take(i as int)),
                    ..s0
                }),
            decreases FONTSET_SIZE - i,
        {
            self.memory.memory[i] = font[i];
            proof {
                assert(self@.memory =~= write_bytes(s0.memory, 0, font_spec().take(i + 1)));
            }
            i = i + 1;
        }
        assert(font_spec().take(FONTSET_SIZE as int) =~= font_spec());
        let loaded = self.load_rom(rom, START_ADDRESS);
        assert(loaded is Ok);
        self.cpu.pc = START_ADDRESS as u16;
        Ok(())
    }

    pub fn is_drawflag_set(&self) -> (r: bool)
        ensures
            r == self@.frame.dirty,
    {
        self.media.display.is_drawflag_set()
    }

    /// One fetch-decode-execute cycle, with `random` as the byte that a
    /// `CXKK` instruction masks. Timers are not touched: they tick on their
    /// own clock through `update_timers`.
    pub fn emulate_cycle_with(&mut self, random: u8) -> (r: Result<Outcome, MachineFault>)
        requires
            machine_ok(old(self)@),
        ensures
            machine_ok(final(self)@),
            (final(self)@, r) == cycle_spec(old(self)@, random),
    {
        match self.fetch_instr() {
            None => Err(MachineFault::PcOutOfRange),
            Some(opcode) => self.execute_instr(opcode, random),
        }
    }

    /// One fetch-decode-execute cycle; a `CXKK` instruction gets a fresh
    /// random byte.
    pub fn emulate_cycle(&mut self) -> (r: Result<Outcome, MachineFault>)
        requires
            machine_ok(old(self)@),
        ensures
            machine_ok(final(self)@),
            exists|b: u8| (final(self)@, r) == #[trigger] cycle_spec(old(self)@, b),
    {
        let b = random_byte();
        let r = self.emulate_cycle_with(b);
        assert((self@, r) == cycle_spec(old(self)@, b));
        r
    }

    /// Reads the opcode at the program counter and steps past it; none, and
    /// nothing changed, where the program counter is outside the program
    /// region.
    pub fn fetch_instr(&mut self) -> (r: Option<u16>)
        requires
            machine_ok(old(self)@),
        ensures
            r == fetch_spec(old(self)@),
            final(self)@ == (if r is Some { advance(old(self)@) } else { old(self)@ }),
    {
        if self.cpu.pc < START_ADDRESS as u16 || self.cpu.pc as usize + 1 >= MEMORY_SIZE {
            return None;
        }
        let hi = self.memory.memory[self.cpu.pc as usize] as u16;
        let lo = self.memory.memory[self.cpu.pc as usize + 1] as u16;
        self.cpu.pc = self.cpu.pc + 2;
        Some(hi * 256 + lo)
    }

    /// One timer tick: each non-zero timer counts down by one. Returns whether
    /// the sound timer just reached zero, i.e. the tone must stop.
    pub fn update_timers(&mut self) -> (stopped: bool)
        requires
            machine_ok(old(self)@),
        ensures
            final(self)@ == tick_spec(old(self)@),
            stopped == (old(self)@.sound == 1),
    {
        if self.timers.delay > 0 {
            self.timers.delay = self.timers.delay - 1;
        }
        let mut stopped = false;
        if self.timers.sound > 0 {
            stopped = self.timers.sound == 1;
            self.timers.sound = self.timers.sound - 1;
        }
        stopped
    }
}


/// Cell `p` lies under sprite row `r` and column `c` exactly when it is the
/// cell that `(x0 + c, y0 + r)` wraps to.
proof fn lemma_sprite_cell(x0: int, y0: int, c: int, r: int, p: int)
    requires
        0 <= x0 < 64,
        0 <= y0 < 32,
        0 <= c < 8,
        0 <= r < 16,
        0 <= p < SCREEN_SIZE,
    ensures
        0 <= pixel_index(x0 + c, y0 + r) < SCREEN_SIZE,
        (p == pixel_index(x0 + c, y0 + r)) <==> (sprite_col(p, x0) == c && sprite_row(p, y0) == r),
{
    let a = (x0 + c) % 64;
    let b = (y0 + r) % 32;
    if x0 + c < 64 {
        assert(a == x0 + c);
    } else {
        assert(a == x0 + c - 64);
    }
    if y0 + r < 32 {
        assert(b == y0 + r);
    } else {
        assert(b == y0 + r - 32);
    }
    let q = a + 64 * b;
    assert(q % 64 == a && q / 64 == b) by (nonlinear_arith)
        requires
            0 <= a < 64,
            0 <= b < 32,
            q == a + 64 * b,
    ;
    assert(p == 64 * (p / 64) + p % 64);
    assert(0 <= p / 64 < 32);
}

/// Cell `p` is under a set bit of the first `r` rows of the sprite, or of
/// the first `c` columns of row `r`.
spec fn drawn_upto(mem: Seq<u8>, index: int, n: int, x0: int, y0: int, p: int, r: int, c: int) -> bool {
    sprite_covers(mem, index, n, x0, y0, p) && (sprite_row(p, y0) < r || (sprite_row(p, y0) == r
        && sprite_col(p, x0) < c))
}

impl Chip8 {
    /// `DXYN` on a machine whose memory holds all `n` sprite rows.
    fn draw_sprite(&mut self, x: u8, y: u8, n: u8)
        requires
            machine_ok(old(self)@),
            x < 16,
            y < 16,
            n < 16,
            old(self)@.index as int + n as int <= MEMORY_SIZE,
        ensures
            final(self)@ == draw_spec(old(self)@, x as int, y as int, n as int),
    {
        let ghost s0 = self@;
        let x0: u8 = self.cpu.v[x as usize] % 64;
        let y0: u8 = self.cpu.v[y as usize] % 32;
        let ghost mem = s0.memory;
        let ghost idx = s0.index as int;
        let ghost old_px = s0.frame.pixels;
        let mut hit = false;
        let mut row: u8 = 0;
        assert(self@.frame.pixels =~= Seq::new(
            SCREEN_SIZE as nat,
            |p: int| old_px[p] != drawn_upto(mem, idx, n as int, x0 as int, y0 as int, p, 0, 0),
        ));
        while row < n
            invariant
                machine_ok(s0),
                row <= n,
                n < 16,
                idx + n <= MEMORY_SIZE,
                x0 < 64,
                y0 < 32,
                mem == s0.memory,
                idx == s0.index as int,
                old_px == s0.frame.pixels,
                self@ == (MachineState { frame: Frame { pixels: self@.frame.pixels, dirty: s0.frame.dirty }, ..s0 }),
                self@.frame.pixels == Seq::new(
                    SCREEN_SIZE as nat,
                    |p: int| old_px[p] != drawn_upto(mem, idx, n as int, x0 as int, y0 as int, p, row as int, 0),
                ),
                hit == exists|p: int|
                    0 <= p < SCREEN_SIZE && old_px[p] && #[trigger] drawn_upto(
                        mem,
                        idx,
                        n as int,
                        x0 as int,
                        y0 as int,
                        p,
                        row as int,
                        0,
                    ),
            decreases n - row,
        {
            let bits = self.memory.memory[self.cpu.index as usize + row as usize];
            let mut col: u8 = 0;
            while col < 8
                invariant
                    machine_ok(s0),
                    row < n,
                    n < 16,
                    col <= 8,
                    idx + n <= MEMORY_SIZE,
                    x0 < 64,
                    y0 < 32,
                    mem == s0.memory,
                    idx == s0.index as int,
                    old_px == s0.frame.pixels,
                    bits == mem[idx + row],
                    self@ == (MachineState { frame: Frame { pixels: self@.frame.pixels, dirty: s0.frame.dirty }, ..s0 }),
                    self@.frame.pixels == Seq::new(
                        SCREEN_SIZE as nat,
                        |p: int|
                            old_px[p] != drawn_upto(mem, idx, n as int, x0 as int, y0 as int, p, row as int, col as int),
                    ),
                    hit == exists|p: int|
                        0 <= p < SCREEN_SIZE && old_px[p] && #[trigger] drawn_upto(
                            mem,
                            idx,
                            n as int,
                            x0 as int,
                            y0 as int,
                            p,
                            row as int,
                            col as int,
                        ),
                decreases 8 - col,
            {
                let ghost q = pixel_index(x0 + col, y0 + row);
                let ghost before = self@.frame.pixels;
                let ghost hit_before = hit;
                proof {
                    assert forall|p: int| 0 <= p < SCREEN_SIZE implies
                        ((p == q) <==> (sprite_col(p, x0 as int) == col && sprite_row(p, y0 as int) == row)) by {
                        lemma_sprite_cell(x0 as int, y0 as int, col as int, row as int, p);
                    }
                    lemma_sprite_cell(x0 as int, y0 as int, col as int, row as int, 0);
                    assert(!drawn_upto(mem, idx, n as int, x0 as int, y0 as int, q, row as int, col as int));
                }
                let set = bits & (0x80u8 >> col) != 0;
                proof {
                    assert(drawn_upto(mem, idx, n as int, x0 as int, y0 as int, q, row as int, col + 1) == set);
                }
                if set {
                    let px = x0 as usize + col as usize;
                    let py = y0 as usize + row as usize;
                    if self.media.display.get_screen_pixel_state(px, py) {
                        hit = true;
                    }
                    self.media.display.set_screen_pixel_state(px, py, true);
                }
                proof {
                    assert(self@.frame.pixels =~= Seq::new(
                        SCREEN_SIZE as nat,
                        |p: int|
                            old_px[p] != drawn_upto(mem, idx, n as int, x0 as int, y0 as int, p, row as int, col + 1),
                    ));
                    if hit {
                        if !hit_before {
                            assert(old_px[q] && drawn_upto(mem, idx, n as int, x0 as int, y0 as int, q, row as int, col + 1));
                        } else {
                            let w = choose|p: int|
                                0 <= p < SCREEN_SIZE && old_px[p] && #[trigger] drawn_upto(mem, idx, n as int, x0 as int, y0 as int, p, row as int, col as int);
                            assert(drawn_upto(mem, idx, n as int, x0 as int, y0 as int, w, row as int, col + 1));
                        }
                    } else {
                        assert forall|p: int| 0 <= p < SCREEN_SIZE && old_px[p] implies
                            !#[trigger] drawn_upto(mem, idx, n as int, x0 as int, y0 as int, p, row as int, col + 1) by {
                            if p != q {
                                assert(!drawn_upto(mem, idx, n as int, x0 as int, y0 as int, p, row as int, col as int));
                            }
                        }
                    }
                }
                col = col + 1;
            }
            proof {
                assert forall|p: int| 0 <= p < SCREEN_SIZE implies
                    #[trigger] drawn_upto(mem, idx, n as int, x0 as int, y0 as int, p, row as int, 8)
                    == drawn_upto(mem, idx, n as int, x0 as int, y0 as int, p, row + 1, 0) by {}
                assert(self@.frame.pixels =~= Seq::new(
                    SCREEN_SIZE as nat,
                    |p: int| old_px[p] != drawn_upto(mem, idx, n as int, x0 as int, y0 as int, p, row + 1, 0),
                ));
                if hit {
                    let w = choose|p: int|
                        0 <= p < SCREEN_SIZE && old_px[p] && #[trigger] drawn_upto(mem, idx, n as int, x0 as int, y0 as int, p, row as int, 8);
                    assert(drawn_upto(mem, idx, n as int, x0 as int, y0 as int, w, row + 1, 0));
                } else {
                    assert forall|p: int| 0 <= p < SCREEN_SIZE && old_px[p] implies
                        !#[trigger] drawn_upto(mem, idx, n as int, x0 as int, y0 as int, p, row + 1, 0) by {
                        assert(!drawn_upto(mem, idx, n as int, x0 as int, y0 as int, p, row as int, 8));
                    }
                }
            }
            row = row + 1;
        }
        proof {
            assert forall|p: int| 0 <= p < SCREEN_SIZE implies
                #[trigger] drawn_upto(mem, idx, n as int, x0 as int, y0 as int, p, n as int, 0)
                == sprite_covers(mem, idx, n as int, x0 as int, y0 as int, p) by {}
            if hit {
                let w = choose|p: int|
                    0 <= p < SCREEN_SIZE && old_px[p] && #[trigger] drawn_upto(mem, idx, n as int, x0 as int, y0 as int, p, n as int, 0);
                assert(sprite_covers(mem, idx, n as int, x0 as int, y0 as int, w));
            } else {
                assert forall|p: int| 0 <= p < SCREEN_SIZE && old_px[p] implies
                    !#[trigger] sprite_covers(mem, idx, n as int, x0 as int, y0 as int, p) by {
                    assert(!drawn_upto(mem, idx, n as int, x0 as int, y0 as int, p, n as int, 0));
                }
            }
        }
        self.media.display.set_drawflag(true);
        self.cpu.v[FLAG] = if hit { 1 } else { 0 };
        proof {
            let d = draw_spec(s0, x as int, y as int, n as int);
            assert(self@.frame.pixels =~= d.frame.pixels);
            assert(self@.v =~= d.v);
        }
    }
}


impl Chip8 {
    /// Decodes `opcode` and executes it on a machine whose program counter is
    /// already past it. `random` is the byte that `CXKK` masks. A fault
    /// changes nothing.
    pub fn execute_instr(&mut self, opcode: u16, random: u8) -> (r: Result<Outcome, MachineFault>)
        requires
            machine_ok(old(self)@),
        ensures
            machine_ok(final(self)@),
            (final(self)@, r) == execute_spec(old(self)@, decode_spec(opcode), random),
    {
        let ins = decode(opcode);
        match ins {
            Instruction::ClearScreen | Instruction::Return | Instruction::Jump { .. }
            | Instruction::Call { .. } | Instruction::SkipIfEqualImm { .. }
            | Instruction::SkipIfNotEqualImm { .. } | Instruction::SkipIfEqualReg { .. }
            | Instruction::SkipIfNotEqualReg { .. } | Instruction::JumpOffset { .. }
            | Instruction::SkipIfKey { .. } | Instruction::SkipIfNotKey { .. }
            | Instruction::WaitKey { .. } => self.execute_control(ins),
            Instruction::LoadImm { .. } | Instruction::AddImm { .. } | Instruction::Move { .. }
            | Instruction::Or { .. } | Instruction::And { .. } | Instruction::Xor { .. }
            | Instruction::AddReg { .. } | Instruction::SubReg { .. }
            | Instruction::ShiftRight { .. } | Instruction::SubReverse { .. }
            | Instruction::ShiftLeft { .. } | Instruction::Random { .. } => {
                self.execute_arith(ins, random)
            },
            Instruction::Draw { x, y, n } => {
                if self.cpu.index as usize + n as usize > MEMORY_SIZE {
                    return Err(MachineFault::AddressOutOfRange);
                }
                self.draw_sprite(x, y, n);
                Ok(Outcome::Executed)
            },
            Instruction::Unknown { opcode } => Ok(Outcome::DecodeWarning { opcode }),
            _ => self.execute_memory(ins),
        }
    }

    /// Instructions that clear the screen or move the program counter.
    fn execute_control(&mut self, ins: Instruction) -> (r: Result<Outcome, MachineFault>)
        requires
            machine_ok(old(self)@),
            operands_ok(ins),
            ins is ClearScreen || ins is Return || ins is Jump || ins is Call
                || ins is SkipIfEqualImm || ins is SkipIfNotEqualImm || ins is SkipIfEqualReg
                || ins is SkipIfNotEqualReg || ins is JumpOffset || ins is SkipIfKey
                || ins is SkipIfNotKey || ins is WaitKey,
        ensures
            machine_ok(final(self)@),
            (final(self)@, r) == execute_spec(old(self)@, ins, 0),
    {
        let ghost s0 = self@;
        match ins {
            Instruction::ClearScreen => {
                self.media.display.clear_screen();
            },
            Instruction::Return => {
                if self.cpu.sp == 0 {
                    return Err(MachineFault::StackUnderflow);
                }
                self.cpu.sp = self.cpu.sp - 1;
                self.cpu.pc = self.memory.stack[self.cpu.sp as usize];
            },
            Instruction::Jump { nnn } => {
                self.cpu.pc = nnn;
            },
            Instruction::Call { nnn } => {
                if self.cpu.sp as usize >= STACK_DEPTH {
                    return Err(MachineFault::StackOverflow);
                }
                self.memory.stack[self.cpu.sp as usize] = self.cpu.pc;
                self.cpu.sp = self.cpu.sp + 1;
                self.cpu.pc = nnn;
            },
            Instruction::SkipIfEqualImm { x, kk } => {
                if self.cpu.v[x as usize] == kk {
                    self.skip();
                }
            },
            Instruction::SkipIfNotEqualImm { x, kk } => {
                if self.cpu.v[x as usize] != kk {
                    self.skip();
                }
            },
            Instruction::SkipIfEqualReg { x, y } => {
                if self.cpu.v[x as usize] == self.cpu.v[y as usize] {
                    self.skip();
                }
            },
            Instruction::SkipIfNotEqualReg { x, y } => {
                if self.cpu.v[x as usize] != self.cpu.v[y as usize] {
                    self.skip();
                }
            },
            Instruction::JumpOffset { nnn } => {
                self.cpu.pc = nnn + self.cpu.v[0] as u16;
            },
            Instruction::SkipIfKey { x } => {
                let k = self.cpu.v[x as usize] as usize;
                if k < KEY_COUNT && self.media.keypad.is_key_pressed(k) {
                    self.skip();
                }
            },
            Instruction::SkipIfNotKey { x } => {
                let k = self.cpu.v[x as usize] as usize;
                if !(k < KEY_COUNT && self.media.keypad.is_key_pressed(k)) {
                    self.skip();
                }
            },
            Instruction::WaitKey { x } => {
                // no key yet: step back onto this instruction, so that it runs
                // again next cycle after the keys are polled
                match self.media.keypad.first_pressed() {
                    Some(k) => {
                        self.cpu.v[x as usize] = k;
                    },
                    None => {
                        self.cpu.pc = ((self.cpu.pc as u32 + 0xFFFE) % 0x10000) as u16;
                    },
                }
            },
            _ => {},
        }
        Ok(Outcome::Executed)
    }

    /// Instructions that compute into the registers.
    fn execute_arith(&mut self, ins: Instruction, random: u8) -> (r: Result<Outcome, MachineFault>)
        requires
            machine_ok(old(self)@),
            operands_ok(ins),
            ins is LoadImm || ins is AddImm || ins is Move || ins is Or || ins is And
                || ins is Xor || ins is AddReg || ins is SubReg || ins is ShiftRight
                || ins is SubReverse || ins is ShiftLeft || ins is Random,
        ensures
            machine_ok(final(self)@),
            (final(self)@, r) == execute_spec(old(self)@, ins, random),
    {
        let ghost s0 = self@;
        match ins {
            Instruction::LoadImm { x, kk } => {
                self.cpu.v[x as usize] = kk;
            },
            Instruction::AddImm { x, kk } => {
                self.cpu.v[x as usize] = ((self.cpu.v[x as usize] as u16 + kk as u16) % 256) as u8;
            },
            Instruction::Move { x, y } => {
                self.cpu.v[x as usize] = self.cpu.v[y as usize];
            },
            Instruction::Or { x, y } => {
                self.cpu.v[x as usize] = self.cpu.v[x as usize] | self.cpu.v[y as usize];
            },
            Instruction::And { x, y } => {
                self.cpu.v[x as usize] = self.cpu.v[x as usize] & self.cpu.v[y as usize];
            },
            Instruction::Xor { x, y } => {
                self.cpu.v[x as usize] = self.cpu.v[x as usize] ^ self.cpu.v[y as usize];
            },
            Instruction::AddReg { x, y } => {
                // widened, so that the carry is seen rather than overflowing
                let sum = self.cpu.v[x as usize] as u16 + self.cpu.v[y as usize] as u16;
                self.cpu.v[x as usize] = (sum % 256) as u8;
                self.cpu.v[FLAG] = if sum > 255 { 1 } else { 0 };
            },
            Instruction::SubReg { x, y } => {
                let a = self.cpu.v[x as usize];
                let b = self.cpu.v[y as usize];
                self.cpu.v[x as usize] = ((a as u16 + 256 - b as u16) % 256) as u8;
                self.cpu.v[FLAG] = if a >= b { 1 } else { 0 };
            },
            Instruction::ShiftRight { x, .. } => {
                let a = self.cpu.v[x as usize];
                self.cpu.v[FLAG] = a % 2;
                self.cpu.v[x as usize] = a / 2;
            },
            Instruction::SubReverse { x, y } => {
                let a = self.cpu.v[x as usize];
                let b = self.cpu.v[y as usize];
                self.cpu.v[x as usize] = ((b as u16 + 256 - a as u16) % 256) as u8;
                self.cpu.v[FLAG] = if b >= a { 1 } else { 0 };
            },
            Instruction::ShiftLeft { x, .. } => {
                let a = self.cpu.v[x as usize];
                self.cpu.v[FLAG] = a / 128;
                self.cpu.v[x as usize] = ((a as u16 * 2) % 256) as u8;
            },
            Instruction::Random { x, kk } => {
                self.cpu.v[x as usize] = random & kk;
            },
            _ => {},
        }
        Ok(Outcome::Executed)
    }

    /// Instructions on the index register, the timers and memory.
    fn execute_memory(&mut self, ins: Instruction) -> (r: Result<Outcome, MachineFault>)
        requires
            machine_ok(old(self)@),
            operands_ok(ins),
            ins is LoadIndex || ins is ReadDelay || ins is SetDelay || ins is SetSound
                || ins is AddIndex || ins is FontGlyph || ins is StoreBcd || ins is StoreRegs
                || ins is LoadRegs,
        ensures
            machine_ok(final(self)@),
            (final(self)@, r) == execute_spec(old(self)@, ins, 0),
    {
        let ghost s0 = self@;
        match ins {
            Instruction::LoadIndex { nnn } => {
                self.cpu.index = nnn;
            },
            Instruction::ReadDelay { x } => {
                self.cpu.v[x as usize] = self.timers.delay;
            },
            Instruction::SetDelay { x } => {
                self.timers.delay = self.cpu.v[x as usize];
            },
            Instruction::SetSound { x } => {
                let before = self.timers.sound;
                let after = self.cpu.v[x as usize];
                self.timers.sound = after;
                if before == 0 && after != 0 {
                    return Ok(Outcome::SoundStarted);
                } else if before != 0 && after == 0 {
                    return Ok(Outcome::SoundStopped);
                }
            },
            Instruction::AddIndex { x } => {
                self.cpu.index = ((self.cpu.index as u32 + self.cpu.v[x as usize] as u32) % 0x10000) as u16;
            },
            Instruction::FontGlyph { x } => {
                self.cpu.index = (self.cpu.v[x as usize] % 16) as u16 * 5;
            },
            Instruction::StoreBcd { x } => {
                let i = self.cpu.index as usize;
                if i + 3 > MEMORY_SIZE {
                    return Err(MachineFault::AddressOutOfRange);
                }
                let a = self.cpu.v[x as usize];
                self.memory.memory[i] = a / 100;
                self.memory.memory[i + 1] = (a / 10) % 10;
                self.memory.memory[i + 2] = a % 10;
                proof {
                    assert(self@.memory =~= write_bytes(s0.memory, i as int, seq![a / 100, (a / 10) % 10, a % 10]));
                }
            },
            Instruction::StoreRegs { x } => {
                let base = self.cpu.index as usize;
                if base + x as usize + 1 > MEMORY_SIZE {
                    return Err(MachineFault::AddressOutOfRange);
                }
                let mut i: usize = 0;
                assert(write_bytes(s0.memory, base as int, s0.v.take(0)) =~= s0.memory);
                while i <= x as usize
                    invariant
                        machine_ok(s0),
                        x < 16,
                        base == s0.index,
                        base + x + 1 <= MEMORY_SIZE,
                        i <= x + 1,
                        self@ == (MachineState {
                            memory: write_bytes(s0.memory, base as int, s0.v.take(i as int)),
                            ..s0
                        }),
                    decreases x + 1 - i,
                {
                    self.memory.memory[base + i] = self.cpu.v[i];
                    proof {
                        assert(self@.memory =~= write_bytes(s0.memory, base as int, s0.v.take(i + 1)));
                    }
                    i = i + 1;
                }
            },
            Instruction::LoadRegs { x } => {
                let base = self.cpu.index as usize;
                if base + x as usize + 1 > MEMORY_SIZE {
                    return Err(MachineFault::AddressOutOfRange);
                }
                let mut i: usize = 0;
                assert(Seq::new(REGISTER_COUNT as nat, |j: int| if j < 0 { s0.memory[base + j] } else { s0.v[j] }) =~= s0.v);
                while i <= x as usize
                    invariant
                        machine_ok(s0),
                        x < 16,
                        base == s0.index,
                        base + x + 1 <= MEMORY_SIZE,
                        i <= x + 1,
                        self@ == (MachineState {
                            v: Seq::new(
                                REGISTER_COUNT as nat,
                                |j: int| if j < i { s0.memory[base + j] } else { s0.v[j] },
                            ),
                            ..s0
                        }),
                    decreases x + 1 - i,
                {
                    self.cpu.v[i] = self.memory.memory[base + i];
                    proof {
                        assert(self@.v =~= Seq::new(
                            REGISTER_COUNT as nat,
                            |j: int| if j < i + 1 { s0.memory[base + j] } else { s0.v[j] },
                        ));
                    }
                    i = i + 1;
                }
                proof {
                    assert(self@.v =~= apply(s0, ins, 0).v);
                }
            },
            _ => {},
        }
        Ok(Outcome::Executed)
    }

    /// Steps the program counter over the next instruction.
    fn skip(&mut self)
        ensures
            final(self)@ == advance(old(self)@),
    {
        self.cpu.pc = ((self.cpu.pc as u32 + 2) % 0x10000) as u16;
    }
}


impl Chip8 {
    /// Register `V[x]`.
    pub fn register(&self, x: usize) -> (r: u8)
        requires
            x < REGISTER_COUNT,
        ensures
            r == self@.v[x as int],
    {
        self.cpu.v[x]
    }

    pub fn pc(&self) -> (r: u16)
        ensures
            r == self@.pc,
    {
        self.cpu.pc
    }

    pub fn index(&self) -> (r: u16)
        ensures
            r == self@.index,
    {
        self.cpu.index
    }

    /// How many return addresses are on the stack.
    pub fn stack_depth(&self) -> (r: u16)
        ensures
            r == self@.sp,
    {
        self.cpu.sp
    }

    /// The byte at memory address `addr`.
    pub fn memory_at(&self, addr: usize) -> (r: u8)
        requires
            addr < MEMORY_SIZE,
        ensures
            r == self@.memory[addr as int],
    {
        self.memory.memory[addr]
    }

    pub fn delay_timer(&self) -> (r: u8)
        ensures
            r == self@.delay,
    {
        self.timers.delay
    }

    pub fn sound_timer(&self) -> (r: u8)
        ensures
            r == self@.sound,
    {
        self.timers.sound
    }
}

} // verus!
