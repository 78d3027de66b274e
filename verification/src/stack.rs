//! The call stack: at most sixteen return addresses.

use vstd::prelude::*;
use crate::error::Chip8Error;

verus! {

/// The greatest number of return addresses that the stack holds.
pub const STACK_DEPTH: usize = 16;

/// A stack of return addresses that never grows past `STACK_DEPTH`. Its view
/// lists the addresses from the oldest to the newest.
pub struct CallStack {
    frames: Vec<u16>,
}

impl View for CallStack {
    type V = Seq<u16>;

    closed spec fn view(&self) -> Seq<u16> {
        self.frames@
    }
}

impl CallStack {
    /// The stack holds at most `STACK_DEPTH` addresses.
    #[verifier::type_invariant]
    pub closed spec fn bounded(self) -> bool {
        self.frames@.len() <= STACK_DEPTH
    }

    /// A bounded stack has a view of at most `STACK_DEPTH` entries.
    pub proof fn lemma_bounded(self)
        requires
            self.bounded(),
        ensures
            self@.len() <= STACK_DEPTH,
    {
    }

    /// An empty stack.
    pub fn new() -> (stack: CallStack)
        ensures
            stack@ == Seq::<u16>::empty(),
    {
        CallStack { frames: Vec::with_capacity(STACK_DEPTH) }
    }

    /// The number of return addresses on the stack.
    pub fn depth(&self) -> (depth: usize)
        ensures
            depth == self@.len(),
            depth <= STACK_DEPTH,
    {
        proof {
            use_type_invariant(self);
        }
        self.frames.len()
    }

    /// Puts `addr` on top of the stack, unless the stack is full.
    pub fn push(&mut self, addr: u16) -> (result: Result<(), Chip8Error>)
        ensures
            old(self)@.len() < STACK_DEPTH ==> result is Ok && final(self)@ == old(self)@.push(addr),
            old(self)@.len() >= STACK_DEPTH ==> result == Err::<(), Chip8Error>(
                Chip8Error::StackOverflow,
            ) && final(self)@ == old(self)@,
    {
        proof {
            use_type_invariant(&*self);
        }
        if self.frames.len() >= STACK_DEPTH {
            return Err(Chip8Error::StackOverflow);
        }
        let mut frames: Vec<u16> = Vec::new();
        core::mem::swap(&mut frames, &mut self.frames);
        frames.push(addr);
        self.frames = frames;
        Ok(())
    }

    /// Takes the newest address off the stack, unless the stack is empty.
    pub fn pop(&mut self) -> (result: Result<u16, Chip8Error>)
        ensures
            old(self)@.len() > 0 ==> result == Ok::<u16, Chip8Error>(old(self)@.last())
                && final(self)@ == old(self)@.drop_last(),
            old(self)@.len() == 0 ==> result == Err::<u16, Chip8Error>(
                Chip8Error::StackUnderflow,
            ) && final(self)@ == old(self)@,
    {
        proof {
            use_type_invariant(&*self);
        }
        let mut frames: Vec<u16> = Vec::new();
        core::mem::swap(&mut frames, &mut self.frames);
        let top = frames.pop();
        self.frames = frames;
        match top {
            Some(addr) => Ok(addr),
            None => Err(Chip8Error::StackUnderflow),
        }
    }
}

} // verus!
