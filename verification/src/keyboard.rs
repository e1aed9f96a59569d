//! The 16-key input device: one boolean down-flag per logical key.
//!
//! The engine never decides when a key is down; an external collaborator
//! sets and clears the flags, and supplies at most one discrete key-press
//! event per step to resolve the blocking wait-for-key opcode.

use vstd::prelude::*;

verus! {

/// A logical key of the 16-key keypad; its index is the key's hexadecimal
/// value.
#[derive(Copy, Clone, PartialEq, Eq, Structural, PartialOrd, Ord, Hash, Debug)]
pub enum Key {
    K0,
    K1,
    K2,
    K3,
    K4,
    K5,
    K6,
    K7,
    K8,
    K9,
    KA,
    KB,
    KC,
    KD,
    KE,
    KF,
}

impl Key {
    /// The hexadecimal value of this key, as an unbounded integer.
    pub open spec fn spec_idx(self) -> int {
        match self {
            Key::K0 => 0x0,
            Key::K1 => 0x1,
            Key::K2 => 0x2,
            Key::K3 => 0x3,
            Key::K4 => 0x4,
            Key::K5 => 0x5,
            Key::K6 => 0x6,
            Key::K7 => 0x7,
            Key::K8 => 0x8,
            Key::K9 => 0x9,
            Key::KA => 0xA,
            Key::KB => 0xB,
            Key::KC => 0xC,
            Key::KD => 0xD,
            Key::KE => 0xE,
            Key::KF => 0xF,
        }
    }

    /// The key at index `i`; meaningful for `0 <= i < 16`.
    pub open spec fn spec_indexed(i: int) -> Key {
        if i == 0x0 {
            Key::K0
        } else if i == 0x1 {
            Key::K1
        } else if i == 0x2 {
            Key::K2
        } else if i == 0x3 {
            Key::K3
        } else if i == 0x4 {
            Key::K4
        } else if i == 0x5 {
            Key::K5
        } else if i == 0x6 {
            Key::K6
        } else if i == 0x7 {
            Key::K7
        } else if i == 0x8 {
            Key::K8
        } else if i == 0x9 {
            Key::K9
        } else if i == 0xA {
            Key::KA
        } else if i == 0xB {
            Key::KB
        } else if i == 0xC {
            Key::KC
        } else if i == 0xD {
            Key::KD
        } else if i == 0xE {
            Key::KE
        } else {
            Key::KF
        }
    }

    /// Maps a key value to its key; `None` only for `value > 0xF`.
    pub fn indexed(value: u8) -> (r: Option<Key>)
        ensures
            value <= 0xF ==> r == Some(Key::spec_indexed(value as int)),
            value > 0xF ==> r is None,
    {
        Some(
            match value {
                0x0 => Key::K0,
                0x1 => Key::K1,
                0x2 => Key::K2,
                0x3 => Key::K3,
                0x4 => Key::K4,
                0x5 => Key::K5,
                0x6 => Key::K6,
                0x7 => Key::K7,
                0x8 => Key::K8,
                0x9 => Key::K9,
                0xA => Key::KA,
                0xB => Key::KB,
                0xC => Key::KC,
                0xD => Key::KD,
                0xE => Key::KE,
                0xF => Key::KF,
                _ => {
                    return None;
                },
            },
        )
    }

    pub fn to_idx(&self) -> (r: usize)
        ensures
            r == self.spec_idx(),
            r < 0x10,
    {
        match self {
            Key::K0 => 0x0,
            Key::K1 => 0x1,
            Key::K2 => 0x2,
            Key::K3 => 0x3,
            Key::K4 => 0x4,
            Key::K5 => 0x5,
            Key::K6 => 0x6,
            Key::K7 => 0x7,
            Key::K8 => 0x8,
            Key::K9 => 0x9,
            Key::KA => 0xA,
            Key::KB => 0xB,
            Key::KC => 0xC,
            Key::KD => 0xD,
            Key::KE => 0xE,
            Key::KF => 0xF,
        }
    }
}

/// The two mappings between keys and key values invert each other: the
/// mapping is total and bijective over `0x0..=0xF`.
pub proof fn lemma_key_index_bijective(k: Key, i: int)
    ensures
        Key::spec_indexed(k.spec_idx()) == k,
        0 <= i < 0x10 ==> Key::spec_indexed(i).spec_idx() == i,
        0 <= k.spec_idx() < 0x10,
{
}

/// The keypad state: sixteen boolean down-flags, viewed as a sequence of 16
/// booleans indexed by key value.
#[derive(Debug)]
pub struct Keyboard {
    states: [bool; 0x10],
}

impl View for Keyboard {
    type V = Seq<bool>;

    closed spec fn view(&self) -> Seq<bool> {
        self.states@
    }
}

impl Keyboard {
    /// Whether the given key is currently down.
    pub fn key_down(&self, key: Key) -> (r: bool)
        ensures
            r == self@[key.spec_idx()],
    {
        self.states[key.to_idx()]
    }

    /// Sets or clears the down-flag of the given key.
    pub fn set_key(&mut self, key: Key, down: bool)
        ensures
            final(self)@ == old(self)@.update(key.spec_idx(), down),
    {
        self.states[key.to_idx()] = down;
    }

    /// The lowest-valued key currently down, if any.
    pub fn key_pressed(&self) -> (r: Option<Key>)
        ensures
            match r {
                Some(k) => self@[k.spec_idx()] && forall|j: int|
                    0 <= j < k.spec_idx() ==> !self@[j],
                None => forall|j: int| 0 <= j < 0x10 ==> !self@[j],
            },
    {
        let mut i: usize = 0;
        while i < 0x10
            invariant
                i <= 0x10,
                forall|j: int| 0 <= j < i ==> !self@[j],
            decreases 0x10 - i,
        {
            if self.states[i] {
                return Key::indexed(i as u8);
            }
            i = i + 1;
        }
        None
    }
}

impl Default for Keyboard {
    /// A keypad with every key up.
    fn default() -> (k: Keyboard)
        ensures
            k@.len() == 0x10,
            forall|j: int| 0 <= j < 0x10 ==> !k@[j],
    {
        Keyboard { states: [false;0x10] }
    }
}

} // verus!
