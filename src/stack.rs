use vstd::prelude::*;

verus! {

/// How many return addresses the call stack holds at most.
pub const STACK_SIZE: usize = 16;

/// A bounded stack of return addresses.
///
/// Its view is the sequence of live entries, oldest first.
pub struct CallStack {
    frames: [u16; STACK_SIZE],
    len: u8,
}

impl View for CallStack {
    type V = Seq<u16>;

    closed spec fn view(&self) -> Seq<u16> {
        self.frames@.subrange(0, self.len as int)
    }
}

impl CallStack {
    #[verifier::type_invariant]
    spec fn inv(&self) -> bool {
        self.len as usize <= STACK_SIZE
    }

    /// An empty stack.
    pub fn new() -> (r: CallStack)
        ensures
            r@ == Seq::<u16>::empty(),
    {
        let r = CallStack { frames: [0u16; STACK_SIZE], len: 0 };
        assert(r@ =~= Seq::<u16>::empty());
        r
    }

    /// The number of live entries (the stack pointer).
    pub fn len(&self) -> (r: usize)
        ensures
            r == self@.len(),
            r <= STACK_SIZE,
    {
        proof {
            use_type_invariant(self);
        }
        self.len as usize
    }

    /// Whether no entry is live.
    pub fn is_empty(&self) -> (r: bool)
        ensures
            r == (self@.len() == 0),
    {
        self.len() == 0
    }

    /// Whether all sixteen slots are in use.
    pub fn is_full(&self) -> (r: bool)
        ensures
            r == (self@.len() >= STACK_SIZE),
    {
        self.len() >= STACK_SIZE
    }

    /// The live entry at position `k`, counted from the bottom, if there is one.
    pub fn get(&self, k: usize) -> (r: Option<u16>)
        ensures
            k < self@.len() ==> r == Some(self@[k as int]),
            k >= self@.len() ==> r is None,
    {
        proof {
            use_type_invariant(self);
        }
        if k < self.len as usize {
            Some(self.frames[k])
        } else {
            None
        }
    }

    /// Pushes a return address onto a stack that is not full.
    pub fn push(&mut self, addr: u16)
        requires
            old(self)@.len() < STACK_SIZE,
        ensures
            final(self)@ == old(self)@.push(addr),
    {
        proof {
            use_type_invariant(&*self);
        }
        let ghost before = self@;
        let k = self.len as usize;
        self.frames[k] = addr;
        self.len = self.len + 1;
        assert(self@ =~= before.push(addr));
    }

    /// Removes and returns the newest entry of a stack that is not empty.
    pub fn pop(&mut self) -> (r: u16)
        requires
            old(self)@.len() > 0,
        ensures
            r == old(self)@.last(),
            final(self)@ == old(self)@.drop_last(),
    {
        proof {
            use_type_invariant(&*self);
        }
        let ghost before = self@;
        self.len = self.len - 1;
        let r = self.frames[self.len as usize];
        assert(self@ =~= before.drop_last());
        r
    }
}

} // verus!
