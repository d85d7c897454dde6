use vstd::prelude::*;

verus! {

/// The physical keys that the interpreter tells apart.
#[derive(Clone, Copy, Debug, PartialEq, Eq, Structural)]
pub enum PhysicalKey {
    Key1,
    Key2,
    Key3,
    Key4,
    Q,
    W,
    E,
    R,
    A,
    S,
    D,
    F,
    Z,
    X,
    C,
    V,
    Escape,
    Other,
}

/// The keypad table: the hex value that each physical key stands for.
pub open spec fn key_hex(key: PhysicalKey) -> Option<u8> {
    match key {
        PhysicalKey::X => Some(0x0),
        PhysicalKey::Key1 => Some(0x1),
        PhysicalKey::Key2 => Some(0x2),
        PhysicalKey::Key3 => Some(0x3),
        PhysicalKey::Q => Some(0x4),
        PhysicalKey::W => Some(0x5),
        PhysicalKey::E => Some(0x6),
        PhysicalKey::A => Some(0x7),
        PhysicalKey::S => Some(0x8),
        PhysicalKey::D => Some(0x9),
        PhysicalKey::Z => Some(0xA),
        PhysicalKey::C => Some(0xB),
        PhysicalKey::Key4 => Some(0xC),
        PhysicalKey::R => Some(0xD),
        PhysicalKey::F => Some(0xE),
        PhysicalKey::V => Some(0xF),
        PhysicalKey::Escape => None,
        PhysicalKey::Other => None,
    }
}

/// The hex value that `key` stands for on the keypad, if any.
pub fn keypad_value(key: PhysicalKey) -> (r: Option<u8>)
    ensures
        r == key_hex(key),
        r matches Some(v) ==> v < 16,
{
    match key {
        PhysicalKey::X => Some(0x0),
        PhysicalKey::Key1 => Some(0x1),
        PhysicalKey::Key2 => Some(0x2),
        PhysicalKey::Key3 => Some(0x3),
        PhysicalKey::Q => Some(0x4),
        PhysicalKey::W => Some(0x5),
        PhysicalKey::E => Some(0x6),
        PhysicalKey::A => Some(0x7),
        PhysicalKey::S => Some(0x8),
        PhysicalKey::D => Some(0x9),
        PhysicalKey::Z => Some(0xA),
        PhysicalKey::C => Some(0xB),
        PhysicalKey::Key4 => Some(0xC),
        PhysicalKey::R => Some(0xD),
        PhysicalKey::F => Some(0xE),
        PhysicalKey::V => Some(0xF),
        PhysicalKey::Escape => None,
        PhysicalKey::Other => None,
    }
}

/// Whether some key in `keys` stands for the hex value `v`.
pub open spec fn hex_is_down(keys: Seq<PhysicalKey>, v: int) -> bool {
    exists|i: int| 0 <= i < keys.len() && key_hex(keys[i]) == Some(v as u8)
}

proof fn lemma_hex_is_down_push(keys: Seq<PhysicalKey>, k: PhysicalKey, v: int)
    requires
        0 <= v < 16,
    ensures
        hex_is_down(keys.push(k), v) == (hex_is_down(keys, v) || key_hex(k) == Some(v as u8)),
{
    let ks = keys.push(k);
    if hex_is_down(keys, v) {
        let i = choose|i: int| 0 <= i < keys.len() && key_hex(keys[i]) == Some(v as u8);
        assert(ks[i] == keys[i]);
    }
    if key_hex(k) == Some(v as u8) {
        assert(ks[keys.len() as int] == k);
    }
    if hex_is_down(ks, v) {
        let i = choose|i: int| 0 <= i < ks.len() && key_hex(ks[i]) == Some(v as u8);
        if i < keys.len() {
            assert(ks[i] == keys[i]);
        }
    }
}

proof fn lemma_is_down_push(keys: Seq<PhysicalKey>, k: PhysicalKey, key: PhysicalKey)
    ensures
        is_down(keys.push(k), key) == (is_down(keys, key) || k == key),
{
    let ks = keys.push(k);
    if is_down(keys, key) {
        let i = choose|i: int| 0 <= i < keys.len() && keys[i] == key;
        assert(ks[i] == keys[i]);
    }
    if k == key {
        assert(ks[keys.len() as int] == k);
    }
    if is_down(ks, key) {
        let i = choose|i: int| 0 <= i < ks.len() && ks[i] == key;
        if i < keys.len() {
            assert(ks[i] == keys[i]);
        }
    }
}

/// The lowest keypad value marked in `held` at or above `from`.
pub open spec fn first_held_from(held: Seq<bool>, from: int) -> Option<u8>
    decreases 16 - from,
{
    if from < 0 || from >= 16 {
        None
    } else if held[from] {
        Some(from as u8)
    } else {
        first_held_from(held, from + 1)
    }
}

/// The lowest keypad value marked in `held`, if any.
pub open spec fn first_held(held: Seq<bool>) -> Option<u8> {
    first_held_from(held, 0)
}

/// Whether the keypad value `v` is marked in `held`; values above 0xF name no key.
pub open spec fn is_held(held: Seq<bool>, v: int) -> bool {
    0 <= v < 16 && held[v]
}

/// Whether `key` occurs in `keys`.
pub open spec fn is_down(keys: Seq<PhysicalKey>, key: PhysicalKey) -> bool {
    exists|i: int| 0 <= i < keys.len() && keys[i] == key
}

/// One sample of the keyboard, taken once per cycle.
#[derive(Clone, Copy, Debug)]
pub struct KeySnapshot {
    /// `held[v]`: the key for hex value `v` is down.
    pub held: [bool; 16],
    /// The stop key is down.
    pub quit: bool,
}

impl KeySnapshot {
    /// The snapshot of a set of keys that are down.
    pub fn from_keys(keys: &[PhysicalKey]) -> (r: KeySnapshot)
        ensures
            forall|v: int| 0 <= v < 16 ==> #[trigger] r.held@[v] == hex_is_down(keys@, v),
            r.quit == is_down(keys@, PhysicalKey::Escape),
    {
        let mut held: [bool; 16] = [false; 16];
        let mut quit = false;
        let mut i: usize = 0;
        while i < keys.len()
            invariant
                i <= keys@.len(),
                forall|v: int|
                    0 <= v < 16 ==> #[trigger] held@[v] == hex_is_down(keys@.take(i as int), v),
                quit == is_down(keys@.take(i as int), PhysicalKey::Escape),
            decreases keys@.len() - i,
        {
            let key = keys[i];
            match keypad_value(key) {
                Some(v) => {
                    held[v as usize] = true;
                },
                None => {},
            }
            if key == PhysicalKey::Escape {
                quit = true;
            }
            proof {
                assert(keys@.take(i + 1) == keys@.take(i as int).push(key));
                assert forall|v: int| 0 <= v < 16 implies #[trigger] held@[v] == hex_is_down(
                    keys@.take(i + 1),
                    v,
                ) by {
                    lemma_hex_is_down_push(keys@.take(i as int), key, v);
                }
                lemma_is_down_push(keys@.take(i as int), key, PhysicalKey::Escape);
            }
            i = i + 1;
        }
        assert(keys@.take(i as int) == keys@);
        KeySnapshot { held, quit }
    }

    /// The lowest keypad value whose key is down.
    pub fn lowest_held(&self) -> (r: Option<u8>)
        ensures
            r == first_held(self.held@),
    {
        let mut v: u8 = 0;
        while v < 16
            invariant
                v <= 16,
                first_held(self.held@) == first_held_from(self.held@, v as int),
            decreases 16 - v,
        {
            if self.held[v as usize] {
                return Some(v);
            }
            v = v + 1;
        }
        None
    }
}

} // verus!
