use vstd::prelude::*;

verus! {

/// Number of logical keys, coded 0x0 to 0xF.
pub const KEY_COUNT: usize = 16;

/// Which of the sixteen logical keys are held down.
pub struct KeyPad {
    pressed: [bool; 16],
}

impl View for KeyPad {
    type V = Seq<bool>;

    closed spec fn view(&self) -> Seq<bool> {
        self.pressed@
    }
}

/// Whether key `code` is held down; codes above 0xF name no key.
pub open spec fn key_held(keys: Seq<bool>, code: int) -> bool {
    0 <= code < 16 && keys[code]
}

/// Whether every code names one of the sixteen keys.
pub open spec fn all_key_codes_spec(codes: Seq<u8>) -> bool {
    forall|k: int| 0 <= k < codes.len() ==> codes[k] <= 0xF
}

/// Whether every code of a key mapping names one of the sixteen keys.
pub fn all_key_codes(codes: &Vec<u8>) -> (r: bool)
    ensures
        r == all_key_codes_spec(codes@),
{
    let mut k: usize = 0;
    while k < codes.len()
        invariant
            0 <= k <= codes@.len(),
            forall|j: int| 0 <= j < k ==> codes@[j] <= 0xF,
        decreases codes@.len() - k,
    {
        if codes[k] > 0xF {
            return false;
        }
        k += 1;
    }
    true
}

impl KeyPad {
    /// The keypad always holds one entry per key.
    pub proof fn lemma_len(&self)
        ensures
            self@.len() == 16,
    {
    }

    /// A keypad with no key held down.
    pub fn new() -> (pad: KeyPad)
        ensures
            pad@ == Seq::new(16, |k: int| false),
    {
        let pad = KeyPad { pressed: [false; 16] };
        assert(pad@ =~= Seq::new(16, |k: int| false));
        pad
    }

    /// Whether key `num` is held down; false for codes above 0xF.
    pub fn is_pressed(&self, num: u8) -> (r: bool)
        ensures
            r == key_held(self@, num as int),
    {
        if num > 0xF {
            false
        } else {
            self.pressed[num as usize]
        }
    }

    /// Marks key `code` as held down; codes above 0xF are ignored.
    pub fn key_down(&mut self, code: u8)
        ensures
            final(self)@ == if code <= 0xF {
                old(self)@.update(code as int, true)
            } else {
                old(self)@
            },
    {
        if code <= 0xF {
            self.pressed[code as usize] = true;
        }
    }

    /// Marks key `code` as released; codes above 0xF are ignored.
    pub fn key_up(&mut self, code: u8)
        ensures
            final(self)@ == if code <= 0xF {
                old(self)@.update(code as int, false)
            } else {
                old(self)@
            },
    {
        if code <= 0xF {
            self.pressed[code as usize] = false;
        }
    }
}

} // verus!
