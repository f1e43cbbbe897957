//! Devices owned by the bus: a keyboard with a bounded key queue and a
//! placeholder mouse.

use std::collections::VecDeque;
use vstd::prelude::*;

verus! {

/// Reserved coordinate pair; no instruction reads it yet.
pub struct Mouse {
    pub x: u8,
    pub y: u8,
}

impl Mouse {
    pub fn new() -> (m: Mouse)
        ensures
            m.x == 0,
            m.y == 0,
    {
        Mouse { x: 0, y: 0 }
    }
}

/// A queue of pending keycodes. The hardware accepts at most one pending
/// key at a time: injecting into a non-empty queue drops the key.
pub struct Keyboard {
    queue: VecDeque<u8>,
}

impl View for Keyboard {
    type V = Seq<u8>;

    closed spec fn view(&self) -> Seq<u8> {
        self.queue@
    }
}

impl Keyboard {
    pub fn new() -> (k: Keyboard)
        ensures
            k@ == Seq::<u8>::empty(),
    {
        Keyboard { queue: VecDeque::new() }
    }

    /// Removes and returns the head of the queue, or 0 if it is empty.
    pub fn pop_key(&mut self) -> (k: u8)
        ensures
            old(self)@.len() == 0 ==> k == 0 && final(self)@ == old(self)@,
            old(self)@.len() > 0 ==> k == old(self)@[0] && final(self)@ == old(self)@.skip(1),
    {
        match self.queue.pop_front() {
            Some(k) => k,
            None => 0,
        }
    }

    /// Appends a keycode, but only when no key is already pending.
    pub fn inject_key(&mut self, key: u8)
        ensures
            old(self)@.len() == 0 ==> final(self)@ == seq![key],
            old(self)@.len() > 0 ==> final(self)@ == old(self)@,
    {
        if self.queue.len() == 0 {
            self.queue.push_back(key);
            proof {
                assert(self@ =~= seq![key]);
            }
        }
    }

    /// Returns 1 when a key is pending, 0 otherwise.
    pub fn status(&self) -> (s: u8)
        ensures
            s == (if self@.len() > 0 { 1u8 } else { 0u8 }),
    {
        if self.queue.len() > 0 {
            1
        } else {
            0
        }
    }
}

} // verus!
