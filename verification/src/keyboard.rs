//! The 16-key keyboard latch: one pressed/released bit per CHIP-8 key
//! index `0x0..=0xF`.

use vstd::prelude::*;

verus! {

/// Pressed-state latch for the 16 CHIP-8 keys.
pub struct KeyboardState {
    keys: Vec<bool>,
}

impl KeyboardState {
    /// The pressed bit of every key, as a sequence of 16 booleans.
    pub closed spec fn view(&self) -> Seq<bool> {
        self.keys@
    }

    /// The latch always holds exactly 16 keys.
    pub open spec fn wf(&self) -> bool {
        self@.len() == 16
    }

    /// A fresh latch: all 16 keys released.
    pub fn new() -> (kb: KeyboardState)
        ensures
            kb.wf(),
            kb@ == Seq::new(16, |k: int| false),
    {
        let mut keys: Vec<bool> = Vec::new();
        let mut k: usize = 0;
        while k < 16
            invariant
                k <= 16,
                keys@.len() == k,
                forall|j: int| 0 <= j < k ==> !keys@[j],
            decreases 16 - k,
        {
            keys.push(false);
            k = k + 1;
        }
        let kb = KeyboardState { keys };
        proof {
            assert(kb@ =~= Seq::new(16, |j: int| false));
        }
        kb
    }

    /// How many keys the latch holds.
    pub fn len(&self) -> (n: usize)
        ensures
            n == self@.len(),
    {
        self.keys.len()
    }

    /// Whether key `k` is currently pressed.
    pub fn is_key_pressed(&self, k: &u8) -> (pressed: bool)
        requires
            self.wf(),
            *k < 16,
        ensures
            pressed == self@[*k as int],
    {
        self.keys[*k as usize]
    }

    /// Press key `k`: its bit is set; the other keys keep their state.
    pub fn key_down(&mut self, k: &u8)
        requires
            old(self).wf(),
            *k < 16,
        ensures
            final(self).wf(),
            final(self)@ == old(self)@.update(*k as int, true),
    {
        self.keys.set(*k as usize, true);
    }

    /// Release key `k`: its bit is cleared; the other keys keep their state.
    pub fn key_up(&mut self, k: &u8)
        requires
            old(self).wf(),
            *k < 16,
        ensures
            final(self).wf(),
            final(self)@ == old(self)@.update(*k as int, false),
    {
        self.keys.set(*k as usize, false);
    }
}

} // verus!
