use vstd::prelude::*;
use crate::word::Word;
use crate::errors::VmError;

verus! {

/// The operand stack holds at most this many words.
pub const MAX_SIZE: usize = 1024;

/// A bounded last-in-first-out stack of words; the top is the last element
/// of the view.
pub struct Stack {
    data: Vec<Word>,
}

impl Stack {
    /// The stack as a sequence, bottom first.
    pub closed spec fn view(&self) -> Seq<Word> {
        self.data@
    }

    /// The depth never exceeds the fixed bound.
    pub open spec fn wf(&self) -> bool {
        self@.len() <= 1024
    }

    pub fn new() -> (r: Stack)
        ensures
            r@ =~= Seq::<Word>::empty(),
            r.wf(),
    {
        Stack { data: Vec::new() }
    }

    pub fn len(&self) -> (r: usize)
        ensures
            r == self@.len(),
    {
        self.data.len()
    }

    /// Pushing fails exactly when the stack is full, and leaves it unchanged
    /// then.
    pub fn push(&mut self, value: Word) -> (r: Result<(), VmError>)
        requires
            old(self).wf(),
        ensures
            final(self).wf(),
            match r {
                Ok(()) => old(self)@.len() < 1024 && final(self)@ == old(self)@.push(value),
                Err(e) => e == VmError::StackOverflow && old(self)@.len() == 1024 && final(self)@
                    == old(self)@,
            },
    {
        if self.data.len() >= MAX_SIZE {
            return Err(VmError::StackOverflow);
        }
        self.data.push(value);
        Ok(())
    }

    /// Popping fails exactly when the stack is empty, and leaves it unchanged
    /// then.
    pub fn pop(&mut self) -> (r: Result<Word, VmError>)
        requires
            old(self).wf(),
        ensures
            final(self).wf(),
            match r {
                Ok(w) => old(self)@.len() > 0 && w == old(self)@.last() && final(self)@ == old(
                    self,
                )@.drop_last(),
                Err(e) => e == VmError::StackUnderflow && old(self)@.len() == 0 && final(self)@
                    == old(self)@,
            },
    {
        if self.data.len() == 0 {
            return Err(VmError::StackUnderflow);
        }
        let w = self.data.pop().unwrap();
        Ok(w)
    }

    /// The top word, without removing it; fails exactly when empty.
    pub fn peek(&self) -> (r: Result<Word, VmError>)
        ensures
            match r {
                Ok(w) => self@.len() > 0 && w == self@.last(),
                Err(e) => e == VmError::StackUnderflow && self@.len() == 0,
            },
    {
        if self.data.len() == 0 {
            return Err(VmError::StackUnderflow);
        }
        Ok(self.data[self.data.len() - 1])
    }

    /// The word `i` positions below the top (zero names the top itself);
    /// fails exactly when the stack is too shallow.
    pub fn peek_n(&self, i: usize) -> (r: Result<Word, VmError>)
        ensures
            match r {
                Ok(w) => self@.len() > i && w == self@[self@.len() - 1 - i],
                Err(e) => e == VmError::StackUnderflow && self@.len() <= i,
            },
    {
        if self.data.len() <= i {
            return Err(VmError::StackUnderflow);
        }
        Ok(self.data[self.data.len() - 1 - i])
    }

    /// Exchange the top with the word `n` positions below it; fails exactly
    /// when fewer than `n + 1` words are on the stack.
    pub fn swap(&mut self, n: usize) -> (r: Result<(), VmError>)
        requires
            old(self).wf(),
        ensures
            final(self).wf(),
            match r {
                Ok(()) => {
                    let len = old(self)@.len();
                    &&& len > n
                    &&& final(self)@.len() == len
                    &&& final(self)@[len - 1] == old(self)@[len - 1 - n]
                    &&& final(self)@[len - 1 - n] == old(self)@[len - 1]
                    &&& forall|j: int|
                        0 <= j < len && j != len - 1 && j != len - 1 - n ==> final(self)@[j]
                            == old(self)@[j]
                },
                Err(e) => e == VmError::StackUnderflow && old(self)@.len() <= n && final(self)@
                    == old(self)@,
            },
    {
        let len = self.data.len();
        if len <= n {
            return Err(VmError::StackUnderflow);
        }
        let top = self.data[len - 1];
        let other = self.data[len - 1 - n];
        self.data.set(len - 1, other);
        self.data.set(len - 1 - n, top);
        Ok(())
    }

    /// Push a copy of the word `n` positions below the top, counting the top
    /// as position one; fails on a shallow stack or a full one.
    pub fn dup(&mut self, n: usize) -> (r: Result<(), VmError>)
        requires
            old(self).wf(),
            n >= 1,
        ensures
            final(self).wf(),
            match r {
                Ok(()) => {
                    let len = old(self)@.len();
                    &&& len >= n
                    &&& len < 1024
                    &&& final(self)@ == old(self)@.push(old(self)@[len - n])
                },
                Err(e) => final(self)@ == old(self)@ && (e == VmError::StackUnderflow && old(
                    self,
                )@.len() < n || e == VmError::StackOverflow && old(self)@.len() >= n && old(
                    self,
                )@.len() == 1024),
            },
    {
        let len = self.data.len();
        if len < n {
            return Err(VmError::StackUnderflow);
        }
        if len >= MAX_SIZE {
            return Err(VmError::StackOverflow);
        }
        let w = self.data[len - n];
        self.data.push(w);
        Ok(())
    }
}

} // verus!
