use vstd::prelude::*;

verus! {

/// Number of keys on the logical keypad (`0x0` to `0xF`).
pub const KEY_COUNT: usize = 16;

/// Whether logical key `k` is down; indices off the keypad never are.
pub open spec fn key_down(keys: Seq<bool>, k: int) -> bool {
    0 <= k < KEY_COUNT as int && keys[k]
}

/// The logical key that a host keycode stands for. Keycodes of printable
/// keys are their lowercase ASCII codes; the layout is the usual one:
///
/// ```text
/// 1 2 3 4        1 2 3 C
/// q w e r   ->   4 5 6 D
/// a s d f        7 8 9 E
/// z x c v        A 0 B F
/// ```
pub open spec fn keycode_key(code: i32) -> Option<u8> {
    if code == 49 { Some(0x1u8) }
    else if code == 50 { Some(0x2u8) }
    else if code == 51 { Some(0x3u8) }
    else if code == 52 { Some(0xCu8) }
    else if code == 113 { Some(0x4u8) }
    else if code == 119 { Some(0x5u8) }
    else if code == 101 { Some(0x6u8) }
    else if code == 114 { Some(0xDu8) }
    else if code == 97 { Some(0x7u8) }
    else if code == 115 { Some(0x8u8) }
    else if code == 100 { Some(0x9u8) }
    else if code == 102 { Some(0xEu8) }
    else if code == 122 { Some(0xAu8) }
    else if code == 120 { Some(0x0u8) }
    else if code == 99 { Some(0xBu8) }
    else if code == 118 { Some(0xFu8) }
    else { None }
}

/// The lowest key at or after `i` that is down.
pub open spec fn first_key_from(keys: Seq<bool>, i: int) -> Option<u8>
    decreases KEY_COUNT - i,
{
    if i >= KEY_COUNT || i < 0 {
        None
    } else if keys[i] {
        Some(i as u8)
    } else {
        first_key_from(keys, i + 1)
    }
}

/// Whether some keycode of `codes` stands for logical key `k`.
pub open spec fn held_by(codes: Seq<i32>, k: int) -> bool {
    exists|j: int| 0 <= j < codes.len() && #[trigger] keycode_key(codes[j]) == Some(k as u8)
}

/// The logical key for a host keycode, if it has one (see `keycode_key`).
pub fn keypad_index_for_keycode(code: i32) -> (r: Option<u8>)
    ensures
        r == keycode_key(code),
        r matches Some(k) ==> k < KEY_COUNT,
{
    match code {
        49 => Some(0x1),
        50 => Some(0x2),
        51 => Some(0x3),
        52 => Some(0xC),
        113 => Some(0x4),
        119 => Some(0x5),
        101 => Some(0x6),
        114 => Some(0xD),
        97 => Some(0x7),
        115 => Some(0x8),
        100 => Some(0x9),
        102 => Some(0xE),
        122 => Some(0xA),
        120 => Some(0x0),
        99 => Some(0xB),
        118 => Some(0xF),
        _ => None,
    }
}

/// The state of the sixteen logical keys, written by the input side between
/// cycles and read by the interpreter.
pub struct Keypad {
    keypad: [bool; KEY_COUNT],
}

impl View for Keypad {
    type V = Seq<bool>;

    closed spec fn view(&self) -> Seq<bool> {
        self.keypad@
    }
}

/// Every keypad has exactly `KEY_COUNT` keys.
pub broadcast proof fn lemma_keypad_size(k: Keypad)
    ensures
        #[trigger] k@.len() == KEY_COUNT,
{
}

impl Keypad {
    /// A keypad with every key up.
    pub fn new() -> (r: Self)
        ensures
            r@ == Seq::new(KEY_COUNT as nat, |i: int| false),
    {
        let r = Keypad { keypad: [false; KEY_COUNT] };
        assert(r@ =~= Seq::new(KEY_COUNT as nat, |i: int| false));
        r
    }

    pub fn get_keypad_len(&self) -> (r: usize)
        ensures
            r == KEY_COUNT,
    {
        KEY_COUNT
    }

    pub fn is_key_pressed(&self, index: usize) -> (r: bool)
        requires
            index < KEY_COUNT,
        ensures
            r == self@[index as int],
    {
        self.keypad[index]
    }

    /// The lowest key that is down, if any.
    pub fn first_pressed(&self) -> (r: Option<u8>)
        ensures
            r == first_key_from(self@, 0),
    {
        let mut k: usize = 0;
        while k < KEY_COUNT
            invariant
                k <= KEY_COUNT,
                first_key_from(self@, 0) == first_key_from(self@, k as int),
            decreases KEY_COUNT - k,
        {
            if self.keypad[k] {
                return Some(k as u8);
            }
            k = k + 1;
        }
        None
    }

    /// Marks logical key `index` as down or up.
    pub fn set_key(&mut self, index: usize, pressed: bool)
        requires
            index < KEY_COUNT,
        ensures
            final(self)@ == old(self)@.update(index as int, pressed),
    {
        self.keypad[index] = pressed;
    }

    /// Releases every key.
    pub fn clear_keyboard(&mut self)
        ensures
            final(self)@ == Seq::new(KEY_COUNT as nat, |i: int| false),
    {
        self.keypad = [false; KEY_COUNT];
        assert(self@ =~= Seq::new(KEY_COUNT as nat, |i: int| false));
    }

    /// Sets the keypad to the keys held down on the host: a key is down
    /// exactly when one of the held keycodes maps to it.
    pub fn update_from_keycodes(&mut self, codes: &Vec<i32>)
        ensures
            forall|k: int| 0 <= k < KEY_COUNT ==> #[trigger] final(self)@[k] == held_by(codes@, k),
    {
        self.clear_keyboard();
        let mut j: usize = 0;
        while j < codes.len()
            invariant
                j <= codes.len(),
                self@.len() == KEY_COUNT,
                forall|k: int|
                    0 <= k < KEY_COUNT ==> #[trigger] self@[k] == held_by(codes@.take(j as int), k),
            decreases codes.len() - j,
        {
            let code = codes[j];
            let key = keypad_index_for_keycode(code);
            proof {
                assert forall|k: int| 0 <= k < KEY_COUNT implies held_by(codes@.take(j + 1), k)
                    == (held_by(codes@.take(j as int), k) || keycode_key(code) == Some(k as u8)) by {
                    let next = codes@.take(j + 1);
                    let prev = codes@.take(j as int);
                    assert(next[j as int] == code);
                    if held_by(next, k) {
                        let i = choose|i: int| 0 <= i < next.len() && #[trigger] keycode_key(next[i]) == Some(k as u8);
                        if i < j {
                            assert(prev[i] == next[i]);
                        }
                    }
                    if held_by(prev, k) {
                        let i = choose|i: int| 0 <= i < prev.len() && #[trigger] keycode_key(prev[i]) == Some(k as u8);
                        assert(prev[i] == next[i]);
                    }
                }
            }
            if let Some(k) = key {
                self.keypad[k as usize] = true;
            }
            j = j + 1;
        }
        assert(codes@.take(codes.len() as int) =~= codes@);
    }
}

} // verus!
