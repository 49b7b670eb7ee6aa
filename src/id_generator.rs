use vstd::prelude::*;

verus! {

/// Hands out correlation ids for in-flight operations: 1, 2, 3, ...
pub struct IdGenerator(u64);

impl View for IdGenerator {
    type V = u64;

    /// The last id handed out (0 before the first one).
    closed spec fn view(&self) -> u64 {
        self.0
    }
}

impl IdGenerator {
    pub fn new() -> (r: IdGenerator)
        ensures
            r@ == 0,
    {
        IdGenerator(0)
    }

    /// The next id: one more than the previous, so ids never repeat.
    pub fn gen_id(&mut self) -> (r: u64)
        requires
            old(self)@ < u64::MAX,
        ensures
            r == old(self)@ + 1,
            final(self)@ == r,
    {
        self.0 = self.0 + 1;
        self.0
    }

    /// Whether another id can be handed out without wrapping around.
    pub fn can_gen(&self) -> (r: bool)
        ensures
            r == (self@ < u64::MAX),
    {
        self.0 < u64::MAX
    }
}

} // verus!
