use vstd::prelude::*;

use crate::display::SCREEN_SIZE;
use crate::instruction::{decode_spec, Instruction};
use crate::keypad::{first_key_from, KEY_COUNT};
use crate::semantics::{
    add16, cycle_spec, execute_spec, fetch_spec, flag, machine_ok, sprite_covers, tick_spec,
    MachineState, Outcome, FLAG, MEMORY_SIZE, STACK_DEPTH,
};

verus! {

proof fn lemma_load_immediate_opcode(op: u16, x: u16, kk: u16)
    requires
        x < 16,
        kk < 256,
        op == 0x6000u16 | (x << 8u16) | kk,
    ensures
        op >> 12u16 == 6,
        op >= 0x6000,
        (op >> 8u16) & 0xFu16 == x,
        op & 0xFFu16 == kk,
{
    assert(op >> 12u16 == 6) by (bit_vector)
        requires
            x < 16,
            kk < 256,
            op == 0x6000u16 | (x << 8u16) | kk,
    ;
    assert(op >= 0x6000) by (bit_vector)
        requires
            op == 0x6000u16 | (x << 8u16) | kk,
    ;
    assert((op >> 8u16) & 0xFu16 == x) by (bit_vector)
        requires
            x < 16,
            kk < 256,
            op == 0x6000u16 | (x << 8u16) | kk,
    ;
    assert(op & 0xFFu16 == kk) by (bit_vector)
        requires
            x < 16,
            kk < 256,
            op == 0x6000u16 | (x << 8u16) | kk,
    ;
}

/// `6XKK` leaves exactly `KK` in register `X`, for every register and byte,
/// and leaves the other registers alone.
pub proof fn lemma_load_immediate(s: MachineState, x: u8, kk: u8, r: u8)
    requires
        machine_ok(s),
        x < 16,
    ensures
        ({
            let op = 0x6000u16 | ((x as u16) << 8u16) | (kk as u16);
            let (t, res) = execute_spec(s, decode_spec(op), r);
            &&& res == Ok::<Outcome, crate::semantics::MachineFault>(Outcome::Executed)
            &&& t.v[x as int] == kk
            &&& forall|i: int| 0 <= i < 16 && i != x ==> t.v[i] == s.v[i]
        }),
{
    let op = 0x6000u16 | ((x as u16) << 8u16) | (kk as u16);
    lemma_load_immediate_opcode(op, x as u16, kk as u16);
    assert(decode_spec(op) == Instruction::LoadImm { x, kk });
}

/// `00E0` turns every pixel off and marks the screen for rendering.
pub proof fn lemma_clear_screen(s: MachineState, r: u8)
    requires
        machine_ok(s),
    ensures
        ({
            let (t, res) = execute_spec(s, decode_spec(0x00E0), r);
            &&& res is Ok
            &&& t.frame.dirty
            &&& t.frame.pixels.len() == SCREEN_SIZE
            &&& forall|p: int| 0 <= p < SCREEN_SIZE ==> !t.frame.pixels[p]
        }),
{
}

/// Whether cell `p` lies under a set bit of the sprite that `DXYN` draws in
/// state `s`.
pub open spec fn under_sprite(s: MachineState, x: u8, y: u8, n: u8, p: int) -> bool {
    sprite_covers(
        s.memory,
        s.index as int,
        n as int,
        (s.v[x as int] % 64) as int,
        (s.v[y as int] % 32) as int,
        p,
    )
}

/// Drawing a sprite twice at the same place restores the screen. Where every
/// cell under the sprite was off, the first draw reports no collision and
/// turns those cells on, and the second reports one if the sprite has any set
/// bit.
pub proof fn lemma_draw_twice(s: MachineState, x: u8, y: u8, n: u8, r: u8)
    requires
        machine_ok(s),
        x < 16 && x != FLAG,
        y < 16 && y != FLAG,
        n < 16,
        s.index as int + n as int <= MEMORY_SIZE,
    ensures
        ({
            let ins = Instruction::Draw { x, y, n };
            let (s1, res1) = execute_spec(s, ins, r);
            let (s2, res2) = execute_spec(s1, ins, r);
            &&& res1 is Ok && res2 is Ok
            &&& s2.frame.pixels == s.frame.pixels
            &&& (forall|p: int|
                0 <= p < SCREEN_SIZE && #[trigger] under_sprite(s, x, y, n, p) ==> !s.frame.pixels[p])
                ==> {
                &&& s1.v[FLAG as int] == 0
                &&& forall|p: int|
                    0 <= p < SCREEN_SIZE ==> #[trigger] s1.frame.pixels[p] == (s.frame.pixels[p]
                        || under_sprite(s, x, y, n, p))
                &&& s2.v[FLAG as int] == flag(
                    exists|p: int| 0 <= p < SCREEN_SIZE && #[trigger] under_sprite(s, x, y, n, p),
                )
            }
        }),
{
    let ins = Instruction::Draw { x, y, n };
    let (s1, _) = execute_spec(s, ins, r);
    let (s2, _) = execute_spec(s1, ins, r);
    assert(s1.v[x as int] == s.v[x as int] && s1.v[y as int] == s.v[y as int]);
    assert forall|p: int| #[trigger] under_sprite(s1, x, y, n, p) == under_sprite(s, x, y, n, p) by {}
    assert(s2.frame.pixels =~= s.frame.pixels);
    if forall|p: int| 0 <= p < SCREEN_SIZE && #[trigger] under_sprite(s, x, y, n, p) ==> !s.frame.pixels[p] {
        assert(!exists|p: int|
            0 <= p < SCREEN_SIZE && s.frame.pixels[p] && #[trigger] sprite_covers(
                s.memory,
                s.index as int,
                n as int,
                (s.v[x as int] % 64) as int,
                (s.v[y as int] % 32) as int,
                p,
            )) by {
            if exists|p: int|
                0 <= p < SCREEN_SIZE && s.frame.pixels[p] && #[trigger] sprite_covers(
                    s.memory,
                    s.index as int,
                    n as int,
                    (s.v[x as int] % 64) as int,
                    (s.v[y as int] % 32) as int,
                    p,
                ) {
                let w = choose|p: int|
                    0 <= p < SCREEN_SIZE && s.frame.pixels[p] && #[trigger] sprite_covers(
                        s.memory,
                        s.index as int,
                        n as int,
                        (s.v[x as int] % 64) as int,
                        (s.v[y as int] % 32) as int,
                        p,
                    );
                assert(under_sprite(s, x, y, n, w));
            }
        }
        assert(s1.v[FLAG as int] == 0);
        let hit2 = exists|p: int|
            0 <= p < SCREEN_SIZE && s1.frame.pixels[p] && #[trigger] sprite_covers(
                s1.memory,
                s1.index as int,
                n as int,
                (s1.v[x as int] % 64) as int,
                (s1.v[y as int] % 32) as int,
                p,
            );
        let any = exists|p: int| 0 <= p < SCREEN_SIZE && #[trigger] under_sprite(s, x, y, n, p);
        if any {
            let w = choose|p: int| 0 <= p < SCREEN_SIZE && #[trigger] under_sprite(s, x, y, n, p);
            assert(s1.frame.pixels[w]);
            assert(under_sprite(s1, x, y, n, w));
            assert(hit2);
        }
        if hit2 {
            let w = choose|p: int|
                0 <= p < SCREEN_SIZE && s1.frame.pixels[p] && #[trigger] sprite_covers(
                    s1.memory,
                    s1.index as int,
                    n as int,
                    (s1.v[x as int] % 64) as int,
                    (s1.v[y as int] % 32) as int,
                    p,
                );
            assert(under_sprite(s, x, y, n, w));
        }
        assert(s2.v[FLAG as int] == flag(hit2));
    }
}

/// A call followed by a return comes back to the instruction after the call,
/// with the stack as deep as before. `s` is the state just after the call
/// was fetched.
pub proof fn lemma_call_return(s: MachineState, nnn: u16, r: u8)
    requires
        machine_ok(s),
        s.sp < STACK_DEPTH,
    ensures
        ({
            let (s1, res1) = execute_spec(s, Instruction::Call { nnn }, r);
            let (s2, res2) = execute_spec(s1, Instruction::Return, r);
            &&& res1 is Ok && res2 is Ok
            &&& s1.pc == nnn
            &&& s2.pc == s.pc
            &&& s2.sp == s.sp
        }),
{
}

/// Setting the sound timer to 1 through `FX18` starts the tone; one tick
/// later the timer is 0 and that tick stops the tone, and no later tick stops
/// it again.
pub proof fn lemma_sound_one_tick(s: MachineState, x: u8, r: u8)
    requires
        machine_ok(s),
        x < 16,
        s.v[x as int] == 1,
    ensures
        ({
            let (s1, res) = execute_spec(s, Instruction::SetSound { x }, r);
            &&& res == Ok::<Outcome, crate::semantics::MachineFault>(
                if s.sound == 0 { Outcome::SoundStarted } else { Outcome::Executed },
            )
            &&& s1.sound == 1
            &&& tick_spec(s1).sound == 0
            &&& forall|k: nat| #[trigger] ticks(tick_spec(s1), k).sound == 0
        }),
{
    let (s1, _) = execute_spec(s, Instruction::SetSound { x }, r);
    assert forall|k: nat| #[trigger] ticks(tick_spec(s1), k).sound == 0 by {
        lemma_ticks_silent(tick_spec(s1), k);
    }
}

/// `s` after `k` timer ticks.
pub open spec fn ticks(s: MachineState, k: nat) -> MachineState
    decreases k,
{
    if k == 0 {
        s
    } else {
        tick_spec(ticks(s, (k - 1) as nat))
    }
}

proof fn lemma_ticks_silent(s: MachineState, k: nat)
    requires
        s.sound == 0,
    ensures
        ticks(s, k).sound == 0,
    decreases k,
{
    if k > 0 {
        lemma_ticks_silent(s, (k - 1) as nat);
    }
}

/// The key found by `first_key_from(keys, i)` is the lowest key at or after
/// `i` that is down; none is found only where no such key is down.
pub proof fn lemma_first_key(keys: Seq<bool>, i: int)
    requires
        keys.len() == KEY_COUNT,
        0 <= i <= KEY_COUNT,
    ensures
        match first_key_from(keys, i) {
            Some(k) => i <= k < KEY_COUNT && keys[k as int] && forall|j: int|
                i <= j < k ==> !keys[j],
            None => forall|j: int| i <= j < KEY_COUNT ==> !keys[j],
        },
    decreases KEY_COUNT - i,
{
    if i < KEY_COUNT && !keys[i] {
        lemma_first_key(keys, i + 1);
    }
}

/// A cycle on `FX0A` with no key down changes nothing, so the program counter
/// stays on it however many cycles run. Once some key is down, the cycle puts
/// the lowest such key in register `X` and moves past the instruction.
pub proof fn lemma_wait_key(s: MachineState, op: u16, x: u8, r: u8)
    requires
        machine_ok(s),
        fetch_spec(s) == Some(op),
        decode_spec(op) == (Instruction::WaitKey { x }),
        x < 16,
    ensures
        (forall|j: int| 0 <= j < KEY_COUNT ==> !s.keys[j]) ==> cycle_spec(s, r) == (
        s,
        Ok::<Outcome, crate::semantics::MachineFault>(Outcome::Executed),
        ),
        forall|k: int|
            0 <= k < KEY_COUNT && s.keys[k] && (forall|j: int| 0 <= j < k ==> !s.keys[j]) ==> {
                let (t, res) = cycle_spec(s, r);
                &&& res is Ok
                &&& t.v[x as int] == k
                &&& t.pc == add16(s.pc, 2)
            },
{
    lemma_first_key(s.keys, 0);
    let (t, _) = cycle_spec(s, r);
    if forall|j: int| 0 <= j < KEY_COUNT ==> !s.keys[j] {
        assert(t.pc == s.pc);
        assert(t == s);
    }
}

} // verus!
