//! The theme generation that every terminal view watches.

use vstd::prelude::*;

verus! {

/// The theme generation that was last published.
#[derive(Debug)]
pub struct ThemeSignal {
    generation: u64,
}

impl View for ThemeSignal {
    type V = u64;

    closed spec fn view(&self) -> u64 {
        self.generation
    }
}

impl Default for ThemeSignal {
    fn default() -> (r: ThemeSignal)
        ensures
            r@ == 0,
    {
        ThemeSignal { generation: 0 }
    }
}

impl ThemeSignal {
    /// A signal at a generation.
    pub fn new(generation: u64) -> (r: ThemeSignal)
        ensures
            r@ == generation,
    {
        ThemeSignal { generation }
    }

    /// The generation that was last published.
    pub fn generation(&self) -> (r: u64)
        ensures
            r == self@,
    {
        self.generation
    }

    /// Publishes a generation; `true` when it is news, and those who watch are
    /// told.
    pub fn publish(&mut self, generation: u64) -> (r: bool)
        ensures
            final(self)@ == generation,
            r == (old(self)@ != generation),
    {
        if self.generation == generation {
            return false;
        }
        self.generation = generation;
        true
    }
}

} // verus!
