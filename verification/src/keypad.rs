use vstd::prelude::*;

verus! {

/// The number of keys on the keypad.
pub const KEY_COUNT: usize = 16;

/// The key code that the host reports for each of the sixteen keys, by key
/// index: the rows `1 2 3 4`, `q w e r`, `a s d f` and `z x c v` of a keyboard.
pub const KEYMAP: [i32; 16] = [
    49, 50, 51, 52,
    113, 119, 101, 114,
    97, 115, 100, 102,
    122, 120, 99, 118,
];

/// `i` is a key index whose key code is `keycode`.
pub open spec fn is_key_position(keycode: i32, i: int) -> bool {
    0 <= i < KEY_COUNT && KEYMAP@[i] == keycode
}

/// The key index that `keycode` stands for, or `None` where the keypad has no
/// such key.
pub open spec fn key_index(keycode: i32) -> Option<u8> {
    if exists|i: int| is_key_position(keycode, i) {
        Some((choose|i: int| is_key_position(keycode, i)) as u8)
    } else {
        None
    }
}

/// No key code occurs twice in the map, so a key code names at most one key.
pub proof fn lemma_key_positions_unique(keycode: i32, i: int, j: int)
    requires
        is_key_position(keycode, i),
        is_key_position(keycode, j),
    ensures
        i == j,
{
}

/// A key code at position `i` of the map has key index `i`.
pub proof fn lemma_key_index_at(keycode: i32, i: int)
    requires
        is_key_position(keycode, i),
    ensures
        key_index(keycode) == Some(i as u8),
{
    let c = choose|c: int| is_key_position(keycode, c);
    lemma_key_positions_unique(keycode, i, c);
}

/// Looks a key code up in the map.
pub fn lookup_key(keycode: i32) -> (key: Option<u8>)
    ensures
        key == key_index(keycode),
        key matches Some(k) ==> k < KEY_COUNT,
{
    let mut i: usize = 0;
    while i < KEY_COUNT
        invariant
            i <= KEY_COUNT,
            forall|j: int| 0 <= j < i ==> !is_key_position(keycode, j),
        decreases KEY_COUNT - i,
    {
        if KEYMAP[i] == keycode {
            proof {
                lemma_key_index_at(keycode, i as int);
            }
            return Some(i as u8);
        }
        i += 1;
    }
    None
}

} // verus!
